//! The verified compute behind the bot's chat commands: parsing their
//! arguments and composing their replies. Sending and receiving stays
//! outside this library.

use vstd::prelude::*;

use crate::backends::{
    spec_default_model, spec_list_known_models, spec_validate_ok, spec_get_name, BackendManager,
    BackendView,
};
use crate::text::{spec_join, spec_tokens, split_tokens};

verus! {

/// The words a backend-registration command names: the backend's name, its
/// API base and its API key, standing after the two command words.
pub fn parse_backend_command(text: &str) -> (r: Option<(String, String, String)>)
    ensures
        r is Some <==> spec_tokens(text@).len() >= 5,
        r is Some ==> r->Some_0.0@ == spec_tokens(text@)[2] && r->Some_0.1@ == spec_tokens(
            text@,
        )[3] && r->Some_0.2@ == spec_tokens(text@)[4],
{
    let toks = split_tokens(text);
    if toks.len() >= 5 {
        proof {
            assert(toks.deep_view()[2] == toks@[2]@);
            assert(toks.deep_view()[3] == toks@[3]@);
            assert(toks.deep_view()[4] == toks@[4]@);
        }
        Some((toks[2].clone(), toks[3].clone(), toks[4].clone()))
    } else {
        None
    }
}

/// A message's words after its two leading command words.
pub open spec fn spec_rest_words(s: Seq<char>) -> Seq<Seq<char>> {
    if spec_tokens(s).len() >= 2 {
        spec_tokens(s).skip(2)
    } else {
        Seq::empty()
    }
}

/// A message's text without its two leading command words, the remaining
/// words joined by single spaces.
pub fn send_command_text(text: &str) -> (r: String)
    ensures
        r@ == spec_join(spec_rest_words(text@), " "@),
{
    let toks = split_tokens(text);
    if toks.len() <= 2 {
        proof {
            if toks.deep_view().len() == 2 {
                assert(toks.deep_view().skip(2) =~= Seq::<Seq<char>>::empty());
            }
        }
        return String::new();
    }
    let mut rest: Vec<String> = Vec::new();
    proof {
        assert(rest.deep_view() =~= toks.deep_view().skip(2).take(0));
    }
    let mut i: usize = 2;
    while i < toks.len()
        invariant
            2 <= i <= toks.len(),
            toks.deep_view().len() == toks.len(),
            toks.len() > 2,
            rest.deep_view() == toks.deep_view().skip(2).take(i - 2),
        decreases toks.len() - i,
    {
        let ghost dv = rest.deep_view();
        rest.push(toks[i].clone());
        proof {
            assert(toks.deep_view()[i as int] == toks@[i as int]@);
            assert(toks.deep_view().skip(2)[i - 2] == toks.deep_view()[i as int]);
            assert(rest.deep_view() =~= dv.push(toks.deep_view().skip(2)[i - 2]));
            assert(rest.deep_view() =~= toks.deep_view().skip(2).take(i + 1 - 2));
        }
        i += 1;
    }
    proof {
        assert(rest.deep_view() =~= toks.deep_view().skip(2));
    }
    crate::text::join_strings(&rest, " ")
}

/// The reply of the model-listing command: the model the context would use
/// now, then the known backends and models, one per line.
pub open spec fn spec_list_models_response(
    bs: Seq<BackendView>,
    context_model: Option<Seq<char>>,
) -> Seq<char> {
    let current = match context_model {
        Some(m) => m,
        None => match spec_default_model(bs) {
            Some(d) => d,
            None => "unknown"@,
        },
    };
    "!chaz Current Model: "@ + current + "\n\nKnown Backends:\n"@ + spec_join(
        bs.map_values(|b: BackendView| spec_get_name(b)),
        "\n"@,
    ) + "\n\nKnown Models:\n"@ + spec_join(spec_list_known_models(bs), "\n"@)
}

/// Compose the reply of the model-listing command.
pub fn list_models_response(manager: &BackendManager, context_model: &Option<String>) -> (r:
    String)
    ensures
        r@ == spec_list_models_response(manager@, context_model.deep_view()),
{
    let current: String = match context_model {
        Some(m) => m.clone(),
        None => match manager.default_model() {
            Some(d) => d,
            None => String::from_str("unknown"),
        },
    };
    let backends = manager.list_known_backends();
    let models = manager.list_known_models();
    let mut r = String::from_str("!chaz Current Model: ");
    r.append(current.as_str());
    r.append("\n\nKnown Backends:\n");
    let joined_backends = crate::text::join_strings(&backends, "\n");
    r.append(joined_backends.as_str());
    r.append("\n\nKnown Models:\n");
    let joined_models = crate::text::join_strings(&models, "\n");
    r.append(joined_models.as_str());
    proof {
        assert(r@ =~= spec_list_models_response(manager@, context_model.deep_view()));
    }
    r
}

/// The reply of the model-selection command: confirmation for a known
/// model, the validation error for an invalid one, and a caution for a
/// plausible but unknown one.
pub open spec fn spec_model_command_reply(bs: Seq<BackendView>, model: Seq<char>) -> Seq<char> {
    if spec_list_known_models(bs).contains(model) {
        "!chaz Model set to \""@ + model + "\""@
    } else if !spec_validate_ok(bs, model) {
        "!chaz Error: "@
            + "Multiple backends exist, please specify the model name with the backend prepended, e.g. openai:gpt-4o or aichat:ollama:llama3"@
    } else {
        "!chaz Model "@ + model
            + " is unknown, but may be valid. Please manually verify that it is supported by your desired backend."@
    }
}

/// Compose the reply of the model-selection command.
pub fn model_command_reply(manager: &BackendManager, model: &str) -> (r: String)
    ensures
        r@ == spec_model_command_reply(manager@, model@),
{
    if manager.is_known_model(model) {
        let mut r = String::from_str("!chaz Model set to \"");
        r.append(model);
        r.append("\"");
        proof {
            assert(r@ =~= spec_model_command_reply(manager@, model@));
        }
        r
    } else {
        match manager.validate_model(model) {
            Err(e) => {
                let mut r = String::from_str("!chaz Error: ");
                r.append(e.as_str());
                proof {
                    assert(r@ =~= spec_model_command_reply(manager@, model@));
                }
                r
            },
            Ok(()) => {
                let mut r = String::from_str("!chaz Model ");
                r.append(model);
                r.append(
                    " is unknown, but may be valid. Please manually verify that it is supported by your desired backend.",
                );
                proof {
                    assert(r@ =~= spec_model_command_reply(manager@, model@));
                }
                r
            },
        }
    }
}

} // verus!
