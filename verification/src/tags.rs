//! Tag-defined backends: per-room key/value tags can declare ad-hoc HTTP
//! backends and a preferred default among them.
//!
//! The scheme, in the room's backend namespace: `chazdefault=<name>`,
//! `<name>.url=<api base>`, `<name>.token=<api key>`. A backend is taken
//! from every key whose second field starts with "url", provided both its
//! url and token are present; the declared default is moved to the front.

use vstd::prelude::*;

use crate::backends::{spec_find_backend, Backend, BackendManager, BackendType, BackendView};
use crate::text::{spec_has_prefix, spec_split, split_on, str_eq};

verus! {

/// The first value recorded under a key, if any.
pub open spec fn spec_lookup(pairs: Seq<(Seq<char>, Seq<char>)>, key: Seq<char>) -> Option<
    Seq<char>,
>
    decreases pairs.len(),
{
    if pairs.len() == 0 {
        None
    } else if pairs[0].0 == key {
        Some(pairs[0].1)
    } else {
        spec_lookup(pairs.drop_first(), key)
    }
}

proof fn lemma_lookup_skip(pairs: Seq<(Seq<char>, Seq<char>)>, key: Seq<char>, i: int)
    requires
        0 <= i <= pairs.len(),
        forall|j: int| 0 <= j < i ==> (#[trigger] pairs[j]).0 != key,
    ensures
        spec_lookup(pairs, key) == spec_lookup(pairs.skip(i), key),
    decreases i,
{
    if i > 0 {
        lemma_lookup_skip(pairs.drop_first(), key, i - 1);
        assert(pairs.drop_first().skip(i - 1) =~= pairs.skip(i));
    } else {
        assert(pairs.skip(0) =~= pairs);
    }
}

/// Look a key up among the tag pairs; the first match wins.
pub fn lookup(pairs: &Vec<(String, String)>, key: &str) -> (r: Option<String>)
    ensures
        r.deep_view() == spec_lookup(pairs.deep_view(), key@),
{
    let mut i: usize = 0;
    while i < pairs.len()
        invariant
            i <= pairs.len(),
            pairs.deep_view().len() == pairs.len(),
            forall|j: int| 0 <= j < i ==> (#[trigger] pairs.deep_view()[j]).0 != key@,
        decreases pairs.len() - i,
    {
        proof {
            assert(pairs.deep_view()[i as int] == pairs[i as int].deep_view());
        }
        if str_eq(pairs[i].0.as_str(), key) {
            proof {
                lemma_lookup_skip(pairs.deep_view(), key@, i as int);
                assert(pairs.deep_view().skip(i as int)[0] == pairs.deep_view()[i as int]);
            }
            return Some(pairs[i].1.clone());
        }
        i += 1;
    }
    proof {
        lemma_lookup_skip(pairs.deep_view(), key@, pairs.len() as int);
        assert(pairs.deep_view().skip(pairs.len() as int) =~= Seq::<(Seq<char>, Seq<char>)>::empty());
    }
    None
}

/// The backend a tag key declares, if it does: a key whose second field
/// starts with "url" names a backend, taken only when both its url and
/// token are recorded.
pub open spec fn spec_key_backend(
    all: Seq<(Seq<char>, Seq<char>)>,
    key: Seq<char>,
) -> Seq<BackendView> {
    let parts = spec_split(key, '.');
    if parts.len() >= 2 && spec_has_prefix(parts[1], "url"@) {
        let name = parts[0];
        match (spec_lookup(all, name + ".url"@), spec_lookup(all, name + ".token"@)) {
            (Some(base), Some(tok)) => seq![
                BackendView {
                    backend_type: BackendType::OpenAICompatible,
                    api_base: Some(base),
                    api_key: Some(tok),
                    models: None,
                    name: Some(name),
                    config_dir: None,
                    default_model: None,
                },
            ],
            _ => Seq::empty(),
        }
    } else {
        Seq::empty()
    }
}

/// The backends the tag keys declare, in key order.
pub open spec fn spec_tag_backends(
    all: Seq<(Seq<char>, Seq<char>)>,
    pairs: Seq<(Seq<char>, Seq<char>)>,
) -> Seq<BackendView>
    decreases pairs.len(),
{
    if pairs.len() == 0 {
        Seq::empty()
    } else {
        spec_key_backend(all, pairs[0].0) + spec_tag_backends(all, pairs.drop_first())
    }
}

proof fn lemma_tag_backends_take_succ(
    all: Seq<(Seq<char>, Seq<char>)>,
    pairs: Seq<(Seq<char>, Seq<char>)>,
    i: int,
)
    requires
        0 <= i < pairs.len(),
    ensures
        spec_tag_backends(all, pairs.take(i + 1)) == spec_tag_backends(all, pairs.take(i))
            + spec_key_backend(all, pairs[i].0),
    decreases i,
{
    if i == 0 {
        assert(pairs.take(1)[0] == pairs[0]);
        assert(pairs.take(1).drop_first() =~= Seq::<(Seq<char>, Seq<char>)>::empty());
        assert(pairs.take(0) =~= Seq::<(Seq<char>, Seq<char>)>::empty());
        assert(spec_tag_backends(all, pairs.take(1)) =~= spec_tag_backends(all, pairs.take(0))
            + spec_key_backend(all, pairs[0].0));
    } else {
        let t = pairs.drop_first();
        lemma_tag_backends_take_succ(all, t, i - 1);
        assert(pairs.take(i + 1).drop_first() =~= t.take(i));
        assert(pairs.take(i).drop_first() =~= t.take(i - 1));
        assert(pairs.take(i + 1)[0] == pairs[0]);
        assert(pairs.take(i)[0] == pairs[0]);
        assert(t[i - 1] == pairs[i]);
        assert(spec_tag_backends(all, pairs.take(i + 1)) =~= spec_tag_backends(all, pairs.take(i))
            + spec_key_backend(all, pairs[i].0));
    }
}

/// The declared default moved to the front: the first backend whose
/// display name is the default swaps places with the first backend.
pub open spec fn spec_swap_default(
    bs: Seq<BackendView>,
    default: Option<Seq<char>>,
) -> Seq<BackendView> {
    match default {
        None => bs,
        Some(d) => match spec_find_backend(bs, d) {
            None => bs,
            Some(i) => if bs.len() > 0 {
                bs.update(0, bs[i]).update(i, bs[0])
            } else {
                bs
            },
        },
    }
}

/// The backends the room's tags define, default first.
pub open spec fn spec_backends_from_tags(
    pairs: Seq<(Seq<char>, Seq<char>)>,
) -> Seq<BackendView> {
    spec_swap_default(spec_tag_backends(pairs, pairs), spec_lookup(pairs, "chazdefault"@))
}

/// Build the backends the room's tags define: one HTTP backend per
/// `<name>.url` key with both url and token present, the declared default
/// moved to the front.
pub fn backends_from_tags(pairs: &Vec<(String, String)>) -> (r: Vec<Backend>)
    ensures
        r.deep_view() == spec_backends_from_tags(pairs.deep_view()),
{
    let ghost all = pairs.deep_view();
    let mut backends: Vec<Backend> = Vec::new();
    proof {
        assert(all.take(0) =~= Seq::<(Seq<char>, Seq<char>)>::empty());
        assert(backends.deep_view() =~= spec_tag_backends(all, all.take(0)));
    }
    let mut i: usize = 0;
    while i < pairs.len()
        invariant
            i <= pairs.len(),
            all == pairs.deep_view(),
            all.len() == pairs.len(),
            backends.deep_view() == spec_tag_backends(all, all.take(i as int)),
        decreases pairs.len() - i,
    {
        proof {
            assert(all[i as int] == pairs[i as int].deep_view());
            lemma_tag_backends_take_succ(all, all, i as int);
        }
        let key = &pairs[i].0;
        let parts = split_on(key.as_str(), '.');
        let declares: bool = parts.len() >= 2 && crate::text::has_prefix(
            parts[1].as_str(),
            "url",
        );
        proof {
            assert(parts.deep_view().len() == parts@.len());
            if parts.len() >= 2 {
                assert(parts.deep_view()[1] == parts@[1]@);
            }
        }
        if declares {
            let name = parts[0].clone();
            proof {
                assert(parts.deep_view()[0] == parts@[0]@);
            }
            let mut url_key = name.clone();
            url_key.append(".url");
            let mut token_key = name.clone();
            token_key.append(".token");
            proof {
                assert(url_key@ =~= name@ + ".url"@);
                assert(token_key@ =~= name@ + ".token"@);
            }
            let base = lookup(pairs, url_key.as_str());
            let token = lookup(pairs, token_key.as_str());
            match (base, token) {
                (Some(base), Some(token)) => {
                    let backend = Backend {
                        backend_type: BackendType::OpenAICompatible,
                        api_base: Some(base),
                        api_key: Some(token),
                        models: None,
                        name: Some(name),
                        config_dir: None,
                        default_model: None,
                    };
                    let ghost dv = backends.deep_view();
                    backends.push(backend);
                    proof {
                        assert(backends.deep_view() =~= dv + spec_key_backend(
                            all,
                            all[i as int].0,
                        ));
                    }
                },
                _ => {
                    proof {
                        assert(spec_key_backend(all, all[i as int].0)
                            =~= Seq::<BackendView>::empty());
                        assert(backends.deep_view() =~= backends.deep_view() + spec_key_backend(
                            all,
                            all[i as int].0,
                        ));
                    }
                },
            }
        } else {
            proof {
                assert(spec_key_backend(all, all[i as int].0) =~= Seq::<BackendView>::empty());
                assert(backends.deep_view() =~= backends.deep_view() + spec_key_backend(
                    all,
                    all[i as int].0,
                ));
            }
        }
        i += 1;
    }
    proof {
        assert(all.take(pairs.len() as int) =~= all);
    }
    let default = lookup(pairs, "chazdefault");
    if let Some(d) = default {
        let mut idx: usize = 0;
        let n = backends.len();
        let ghost before = backends.deep_view();
        while idx < n
            invariant
                idx <= n,
                n == backends.len(),
                before == backends.deep_view(),
                all == pairs.deep_view(),
                before == spec_tag_backends(all, all),
                spec_lookup(all, "chazdefault"@) == Some(d@),
                forall|j: int|
                    0 <= j < idx ==> crate::backends::spec_get_name(#[trigger] before[j]) != d@,
            decreases n - idx,
        {
            proof {
                assert(before[idx as int] == backends[idx as int]@);
            }
            let name = backends[idx].get_name();
            let matched: bool = str_eq(name.as_str(), d.as_str());
            if matched {
                proof {
                    crate::backends::lemma_find_backend_bounds(before, d@);
                    lemma_find_backend_skip_local(before, d@, idx as int);
                    assert(before.skip(idx as int)[0] == before[idx as int]);
                    assert(spec_find_backend(before.skip(idx as int), d@) == Some(0int));
                }
                if idx > 0 {
                    let a = backends[0].clone();
                    let b = backends[idx].clone();
                    backends[0] = b;
                    backends[idx] = a;
                    proof {
                        assert(backends.deep_view() =~= before.update(0, before[idx as int]).update(
                            idx as int,
                            before[0],
                        ));
                    }
                } else {
                    proof {
                        assert(backends.deep_view() =~= before.update(0, before[0]).update(
                            0,
                            before[0],
                        ));
                    }
                }
                return backends;
            }
            idx += 1;
        }
        proof {
            lemma_find_backend_skip_local(before, d@, n as int);
            assert(before.skip(n as int) =~= Seq::<BackendView>::empty());
        }
        backends
    } else {
        backends
    }
}

proof fn lemma_find_backend_skip_local(bs: Seq<BackendView>, f: Seq<char>, i: int)
    requires
        0 <= i <= bs.len(),
        forall|j: int| 0 <= j < i ==> crate::backends::spec_get_name(#[trigger] bs[j]) != f,
    ensures
        spec_find_backend(bs, f) == (match spec_find_backend(bs.skip(i), f) {
            Some(k) => Some(k + i),
            None => None::<int>,
        }),
    decreases i,
{
    if i == 0 {
        assert(bs.skip(0) =~= bs);
        match spec_find_backend(bs, f) {
            Some(k) => {
                assert(k + 0 == k);
            },
            None => {},
        }
    } else {
        assert(crate::backends::spec_get_name(bs[0]) != f);
        lemma_find_backend_skip_local(bs.drop_first(), f, i - 1);
        assert(forall|j: int| 0 <= j < i - 1 ==> #[trigger] bs.drop_first()[j] == bs[j + 1]);
        assert(bs.drop_first().skip(i - 1) =~= bs.skip(i));
    }
}

/// The three tag writes that register a backend in a room: it becomes the
/// declared default, and its url and token are recorded under its name.
pub fn backend_tag_writes(name: &str, url: &str, token: &str) -> (r: Vec<(String, String)>)
    ensures
        r.deep_view() == seq![
            ("chazdefault"@, name@),
            (name@ + ".url"@, url@),
            (name@ + ".token"@, token@),
        ],
{
    let mut url_key = String::from_str(name);
    url_key.append(".url");
    let mut token_key = String::from_str(name);
    token_key.append(".token");
    let mut r: Vec<(String, String)> = Vec::new();
    r.push((String::from_str("chazdefault"), String::from_str(name)));
    r.push((url_key, String::from_str(url)));
    r.push((token_key, String::from_str(token)));
    proof {
        assert(r.deep_view() =~= seq![
            ("chazdefault"@, name@),
            (name@ + ".url"@, url@),
            (name@ + ".token"@, token@),
        ]);
    }
    r
}

/// The effective backends of a room: the tag-defined ones first, then the
/// statically configured ones; with none of either, the default manager.
pub fn effective_backends(
    tag_backends: Vec<Backend>,
    config_backends: &Option<Vec<Backend>>,
) -> (r: BackendManager)
    ensures
        ({
            let combined = tag_backends.deep_view() + (match config_backends {
                Some(c) => c.deep_view(),
                None => Seq::<BackendView>::empty(),
            });
            if combined.len() == 0 {
                r@.len() == 1 && r@[0].backend_type == BackendType::AIChat && r@[0].name is None
                    && r@[0].models is None && r@[0].default_model is None
            } else {
                r@ == combined
            }
        }),
{
    let ghost tag0 = tag_backends.deep_view();
    let mut combined = tag_backends;
    if let Some(config) = config_backends {
        let mut i: usize = 0;
        while i < config.len()
            invariant
                i <= config.len(),
                combined.deep_view() == tag0 + config.deep_view().take(i as int),
            decreases config.len() - i,
        {
            let ghost dv = combined.deep_view();
            combined.push(config[i].clone());
            proof {
                assert(config.deep_view()[i as int] == config[i as int]@);
                assert(combined.deep_view() =~= dv.push(config.deep_view()[i as int]));
                assert(combined.deep_view() =~= tag0 + config.deep_view().take(i + 1));
            }
            i += 1;
        }
        proof {
            assert(config.deep_view().take(config.len() as int) =~= config.deep_view());
        }
    } else {
        proof {
            assert(combined.deep_view() =~= tag0 + Seq::<BackendView>::empty());
        }
    }
    if combined.len() == 0 {
        BackendManager::new(&None)
    } else {
        BackendManager::new(&Some(combined))
    }
}

} // verus!
