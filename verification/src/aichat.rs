//! Subprocess backend: drives an external CLI binary.
//!
//! The binary itself is invoked outside this library; here live the verified
//! parts: parsing the binary's output (its model list and its default-model
//! report) and interpreting the outcome of a run.

use vstd::prelude::*;

use crate::backends::Backend;
use crate::text::{spec_has_prefix, spec_split, spec_tokens, split_on, split_tokens};
use vstd::utf8::{encode_utf8, valid_utf8};

verus! {

/// The subprocess backend: an external binary plus its configuration.
pub struct AiChat {
    pub binary_location: String,
    pub config_dir: Option<String>,
    pub backend: Backend,
}

impl AiChat {
    /// A subprocess backend for the given configuration record.
    pub fn new(backend: &Backend) -> (r: Self)
        ensures
            r.binary_location@ == "aichat"@,
            r.config_dir.deep_view() == backend@.config_dir,
            r.backend@ == backend@,
    {
        AiChat {
            binary_location: String::from_str("aichat"),
            config_dir: match &backend.config_dir {
                Some(d) => Some(d.clone()),
                None => None,
            },
            backend: backend.clone(),
        }
    }
}

/// The given lines with the blank ones removed.
pub open spec fn spec_nonblank(lines: Seq<Seq<char>>) -> Seq<Seq<char>>
    decreases lines.len(),
{
    if lines.len() == 0 {
        Seq::empty()
    } else if lines[0].len() > 0 {
        seq![lines[0]] + spec_nonblank(lines.drop_first())
    } else {
        spec_nonblank(lines.drop_first())
    }
}

/// The non-empty lines of the binary's model listing.
pub open spec fn spec_model_lines(out: Seq<char>) -> Seq<Seq<char>> {
    spec_nonblank(spec_split(out, '\n'))
}

proof fn lemma_nonblank_take_succ(lines: Seq<Seq<char>>, i: int)
    requires
        0 <= i < lines.len(),
    ensures
        spec_nonblank(lines.take(i + 1)) == spec_nonblank(lines.take(i)) + (if lines[i].len() > 0 {
            seq![lines[i]]
        } else {
            Seq::<Seq<char>>::empty()
        }),
    decreases i,
{
    let tail = (if lines[i].len() > 0 {
        seq![lines[i]]
    } else {
        Seq::<Seq<char>>::empty()
    });
    if i == 0 {
        assert(lines.take(1)[0] == lines[0]);
        assert(lines.take(1).drop_first() =~= Seq::<Seq<char>>::empty());
        assert(lines.take(0) =~= Seq::<Seq<char>>::empty());
        assert(spec_nonblank(lines.take(1)) =~= spec_nonblank(lines.take(0)) + tail);
    } else {
        let t = lines.drop_first();
        lemma_nonblank_take_succ(t, i - 1);
        assert(lines.take(i + 1).drop_first() =~= t.take(i));
        assert(lines.take(i).drop_first() =~= t.take(i - 1));
        assert(lines.take(i + 1)[0] == lines[0]);
        assert(lines.take(i)[0] == lines[0]);
        assert(t[i - 1] == lines[i]);
        assert(spec_nonblank(lines.take(i + 1)) =~= spec_nonblank(lines.take(i)) + tail);
    }
}

/// Parse the newline-delimited model listing, discarding blank lines.
pub fn parse_model_list(out: &str) -> (r: Vec<String>)
    ensures
        r.deep_view() == spec_model_lines(out@),
{
    let lines = split_on(out, '\n');
    let ghost fields = lines.deep_view();
    let mut r: Vec<String> = Vec::new();
    proof {
        assert(fields.take(0) =~= Seq::<Seq<char>>::empty());
        assert(r.deep_view() =~= spec_nonblank(fields.take(0)));
    }
    let mut i: usize = 0;
    while i < lines.len()
        invariant
            i <= lines.len(),
            fields == lines.deep_view(),
            r.deep_view() == spec_nonblank(fields.take(i as int)),
        decreases lines.len() - i,
    {
        proof {
            lemma_nonblank_take_succ(fields, i as int);
            assert(fields[i as int] == lines[i as int]@);
        }
        if lines[i].as_str().unicode_len() > 0 {
            let ghost dv = r.deep_view();
            r.push(lines[i].clone());
            proof {
                assert(r.deep_view() =~= dv.push(fields[i as int]));
                assert(r.deep_view() =~= spec_nonblank(fields.take(i as int)) + seq![
                    fields[i as int],
                ]);
            }
        } else {
            proof {
                assert(spec_nonblank(fields.take(i + 1)) =~= spec_nonblank(
                    fields.take(i as int),
                ));
            }
        }
        i += 1;
    }
    proof {
        assert(fields.take(lines.len() as int) =~= fields);
    }
    r
}

/// The first of the given lines that starts with "model", if any.
pub open spec fn spec_find_model_line(lines: Seq<Seq<char>>) -> Option<Seq<char>>
    decreases lines.len(),
{
    if lines.len() == 0 {
        None
    } else if spec_has_prefix(lines[0], "model"@) {
        Some(lines[0])
    } else {
        spec_find_model_line(lines.drop_first())
    }
}

proof fn lemma_find_model_line_skip(lines: Seq<Seq<char>>, i: int)
    requires
        0 <= i <= lines.len(),
        forall|j: int| 0 <= j < i ==> !spec_has_prefix(lines[j], "model"@),
    ensures
        spec_find_model_line(lines) == spec_find_model_line(lines.skip(i)),
    decreases i,
{
    if i > 0 {
        lemma_find_model_line_skip(lines.drop_first(), i - 1);
        assert(lines.drop_first().skip(i - 1) =~= lines.skip(i));
    } else {
        assert(lines.skip(0) =~= lines);
    }
}

/// What the default-model report parses to: the second whitespace-delimited
/// word of the first line that starts with "model", if such a line and word
/// exist.
pub open spec fn spec_parse_default_model(out: Seq<char>) -> Option<Seq<char>> {
    match spec_find_model_line(spec_split(out, '\n')) {
        None => None,
        Some(l) => if spec_tokens(l).len() >= 2 {
            Some(spec_tokens(l)[1])
        } else {
            None
        },
    }
}

/// Parse the binary's information report for the default model: the line
/// beginning with "model", second word.
pub fn parse_default_model(out: &str) -> (r: Option<String>)
    ensures
        r.deep_view() == spec_parse_default_model(out@),
{
    let lines = split_on(out, '\n');
    let ghost fields = lines.deep_view();
    let mut i: usize = 0;
    while i < lines.len()
        invariant
            i <= lines.len(),
            fields == lines.deep_view(),
            fields == spec_split(out@, '\n'),
            forall|j: int| 0 <= j < i ==> !spec_has_prefix(fields[j], "model"@),
        decreases lines.len() - i,
    {
        proof {
            assert(fields[i as int] == lines[i as int]@);
        }
        if crate::text::has_prefix(lines[i].as_str(), "model") {
            proof {
                lemma_find_model_line_skip(fields, i as int);
                assert(fields.skip(i as int).len() > 0);
                assert(fields.skip(i as int)[0] == fields[i as int]);
                assert(spec_find_model_line(fields.skip(i as int)) == Some(fields[i as int]));
            }
            let words = split_tokens(lines[i].as_str());
            proof {
                assert(words.deep_view().len() == words@.len());
                assert(words.deep_view() == spec_tokens(fields[i as int]));
            }
            proof {
                assert(fields == spec_split(out@, '\n'));
                assert(spec_find_model_line(spec_split(out@, '\n')) == Some(fields[i as int]));
            }
            if words.len() >= 2 {
                let w = words[1].clone();
                proof {
                    assert(words.deep_view()[1] == words@[1]@);
                    assert(spec_parse_default_model(out@) == Some(
                        spec_tokens(fields[i as int])[1],
                    ));
                    assert(Some(w).deep_view() == Some(w@));
                }
                return Some(w);
            }
            proof {
                assert(spec_parse_default_model(out@) is None);
                assert(None::<String>.deep_view() == None::<Seq<char>>);
            }
            return None;
        }
        i += 1;
    }
    proof {
        lemma_find_model_line_skip(fields, lines.len() as int);
        assert(fields.skip(lines.len() as int) =~= Seq::<Seq<char>>::empty());
    }
    None
}

/// The namespace prefix the subprocess backend strips from a model name:
/// its explicit name, else "aichat", followed by the separator.
pub open spec fn spec_aichat_prefix(b: crate::backends::BackendView) -> Seq<char> {
    (match b.name {
        Some(n) => n,
        None => "aichat"@,
    }) + ":"@
}

/// The argument list of one run of the binary: no streaming, the prefix-
/// stripped model when one is chosen, the attached media files, and the full
/// rendered prompt as the single trailing argument.
pub open spec fn spec_aichat_args(
    b: crate::backends::BackendView,
    ctx: crate::backends::ChatContextView,
) -> Seq<Seq<char>> {
    let base = seq!["--no-stream"@];
    let with_model = match ctx.model {
        Some(m) => base + seq!["--model"@, crate::text::spec_strip_repeated(m, spec_aichat_prefix(b))],
        None => base,
    };
    let with_media = if ctx.media.len() > 0 {
        with_model + seq!["--file"@] + ctx.media
    } else {
        with_model
    };
    with_media + seq!["--"@, crate::backends::spec_string_prompt_with_role(ctx)]
}

/// Build the argument list for one run of the binary.
pub fn build_args(backend: &Backend, context: &crate::backends::ChatContext) -> (args: Vec<
    String,
>)
    ensures
        args.deep_view() == spec_aichat_args(backend@, context@),
{
    let mut args: Vec<String> = Vec::new();
    args.push(String::from_str("--no-stream"));
    proof {
        assert(args.deep_view() =~= seq!["--no-stream"@]);
    }
    if let Some(model) = &context.model {
        let mut pfx: String = match &backend.name {
            Some(n) => n.clone(),
            None => String::from_str("aichat"),
        };
        pfx.append(":");
        proof {
            assert(pfx@ =~= spec_aichat_prefix(backend@));
        }
        let stripped = crate::text::strip_prefix_repeated(model.as_str(), pfx.as_str());
        args.push(String::from_str("--model"));
        args.push(stripped);
        proof {
            assert(args.deep_view() =~= seq!["--no-stream"@] + seq![
                "--model"@,
                crate::text::spec_strip_repeated(context@.model->Some_0, spec_aichat_prefix(backend@)),
            ]);
        }
    }
    let ghost with_model = args.deep_view();
    if context.media.len() > 0 {
        args.push(String::from_str("--file"));
        proof {
            assert(args.deep_view() =~= with_model + seq!["--file"@] + context@.media.take(0));
        }
        let ghost media = context.media.deep_view();
        let mut i: usize = 0;
        while i < context.media.len()
            invariant
                i <= context.media.len(),
                media == context.media.deep_view(),
                args.deep_view() == with_model + seq!["--file"@] + media.take(i as int),
            decreases context.media.len() - i,
        {
            let ghost dv = args.deep_view();
            args.push(context.media[i].clone());
            proof {
                assert(media[i as int] == context.media[i as int]@);
                assert(args.deep_view() =~= dv.push(media[i as int]));
                assert(args.deep_view() =~= with_model + seq!["--file"@] + media.take(i + 1));
            }
            i += 1;
        }
        proof {
            assert(media.take(context.media.len() as int) =~= media);
        }
    }
    let ghost with_media = args.deep_view();
    args.push(String::from_str("--"));
    args.push(context.string_prompt_with_role());
    proof {
        assert(args.deep_view() =~= with_media + seq![
            "--"@,
            crate::backends::spec_string_prompt_with_role(context@),
        ]);
        assert(args.deep_view() =~= spec_aichat_args(backend@, context@));
    }
    args
}

/// Relies on String::from_utf8: it succeeds exactly on valid UTF-8 input,
/// and then returns the string those bytes encode.
#[verifier::external_body]
fn decode_utf8_bytes(bytes: Vec<u8>) -> (r: Option<String>)
    ensures
        r is Some <==> valid_utf8(bytes@),
        r is Some ==> encode_utf8(r->Some_0@) == bytes@,
{
    match String::from_utf8(bytes) {
        Ok(s) => Some(s),
        Err(_) => None,
    }
}

/// Interpret what a finished run of the binary produced.
///
/// An empty standard output means the run failed and standard error carries
/// the failure message; otherwise standard output is the result. A stream
/// that does not decode as UTF-8 is a distinct error.
pub fn interpret_output(stdout: Vec<u8>, stderr: Vec<u8>) -> (r: Result<String, String>)
    ensures
        r is Ok <==> stdout@.len() > 0 && valid_utf8(stdout@),
        r is Ok ==> encode_utf8(r->Ok_0@) == stdout@,
        r is Err && stdout@.len() == 0 && valid_utf8(stderr@) ==> encode_utf8(r->Err_0@)
            == stderr@,
        r is Err && stdout@.len() == 0 && !valid_utf8(stderr@) ==> r->Err_0@
            == "Error decoding stderr"@,
        r is Err && stdout@.len() > 0 ==> r->Err_0@ == "Error decoding stdout"@,
{
    if stdout.len() == 0 {
        match decode_utf8_bytes(stderr) {
            Some(err) => Err(err),
            None => Err(String::from_str("Error decoding stderr")),
        }
    } else {
        match decode_utf8_bytes(stdout) {
            Some(out) => Ok(out),
            None => Err(String::from_str("Error decoding stdout")),
        }
    }
}

} // verus!
