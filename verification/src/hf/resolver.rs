//! The download step of a resolve: which extra files a sharded
//! checkpoint needs, read from its `model.safetensors.index.json`.
use vstd::prelude::*;

use crate::asr::texts;
use crate::hf::error::HfError;
use crate::order::{has_text, sort_unique, strictly_sorted};
use crate::text::{cat, eq_str, chars_of, owned};

verus! {

/// File name of the shard index of a sharded safetensors checkpoint.
pub open spec fn index_name() -> Seq<char> {
    "model.safetensors.index.json"@
}

/// Whether a download plan holds the shard index, so that the shards it
/// lists must be fetched too.
pub fn needs_index(plan: &Vec<String>) -> (r: bool)
    ensures
        r == texts(plan@).contains(index_name()),
{
    let mut i: usize = 0;
    while i < plan.len()
        invariant
            i <= plan.len(),
            forall|k: int| 0 <= k < i ==> texts(plan@)[k] != index_name(),
        decreases plan.len() - i,
    {
        if eq_str(&chars_of(plan[i].as_str()), "model.safetensors.index.json") {
            assert(texts(plan@)[i as int] == index_name());
            return true;
        }
        i = i + 1;
    }
    false
}

/// Hub URL of the shard index of `model_id` at `revision`.
pub open spec fn index_url(model_id: Seq<char>, revision: Seq<char>) -> Seq<char> {
    "https://huggingface.co/"@ + model_id + "/resolve/"@ + revision + "/model.safetensors.index.json"@
}

/// How `serde_json` reads a shard index: `Err` with the parser's message
/// when the text is not JSON; else `Some` of the values of its
/// `weight_map` object, each as text when it is a string, in the order
/// of the parsed map; `None` when `weight_map` is absent or no object.
pub uninterp spec fn weight_map_of(index_text: Seq<char>) -> Result<Option<Seq<Option<Seq<char>>>>, Seq<char>>;

/// The view of a parsed `weight_map`.
pub open spec fn weight_map_view(r: Result<Option<Vec<Option<String>>>, String>) -> Result<Option<Seq<Option<Seq<char>>>>, Seq<char>> {
    match r {
        Ok(Some(v)) => Ok(Some(v@.map_values(|o: Option<String>| match o {
            Some(s) => Some(s@),
            None => None,
        }))),
        Ok(None) => Ok(None),
        Err(e) => Err(e@),
    }
}

/// `serde_json::from_str::<serde_json::Value>` on the index text, then
/// `weight_map` read with `as_object` and each value with `as_str`. The
/// result is named by [`weight_map_of`]; nothing else is stated.
#[verifier::external_body]
fn parse_weight_map(index_text: &str) -> (r: Result<Option<Vec<Option<String>>>, String>)
    ensures
        weight_map_view(r) == weight_map_of(index_text@),
{
    let parsed: serde_json::Value = match serde_json::from_str(index_text) {
        Ok(v) => v,
        Err(e) => return Err(e.to_string()),
    };
    Ok(parsed.get("weight_map").and_then(|v| v.as_object()).map(
        |m| m.values().map(|v| v.as_str().map(|s| s.to_string())).collect(),
    ))
}

/// Whether `x` is one of the string values of a weight map.
pub open spec fn lists_shard(values: Seq<Option<Seq<char>>>, x: Seq<char>) -> bool {
    exists|k: int| 0 <= k < values.len() && values[k] == Some(x)
}

/// The shard files of a parsed index: its string values, sorted, each
/// once. A parse error becomes `HfError::Json`; a missing `weight_map`
/// `HfError::Protocol` naming the index URL.
pub fn shards_from_weight_map(
    model_id: &str,
    revision: &str,
    parsed: Result<Option<Vec<Option<String>>>, String>,
) -> (r: Result<Vec<String>, HfError>)
    ensures
        match weight_map_view(parsed) {
            Err(msg) => r matches Err(HfError::Json { context, source })
                && context@ == index_name() && source@ == msg,
            Ok(None) => r matches Err(HfError::Protocol { url, message })
                && url@ == index_url(model_id@, revision@) && message@ == "missing weight_map"@,
            Ok(Some(values)) => r matches Ok(files)
                && strictly_sorted(texts(files@))
                && forall|x: Seq<char>| #![trigger has_text(texts(files@), x)]
                    has_text(texts(files@), x) <==> lists_shard(values, x),
        },
{
    match parsed {
        Err(msg) => Err(HfError::Json { context: owned("model.safetensors.index.json"), source: msg }),
        Ok(None) => {
            let url = cat(
                cat(cat(cat("https://huggingface.co/", model_id).as_str(), "/resolve/").as_str(), revision).as_str(),
                "/model.safetensors.index.json",
            );
            proof {
                assert(url@ =~= index_url(model_id@, revision@));
            }
            Err(HfError::Protocol { url, message: owned("missing weight_map") })
        },
        Ok(Some(values)) => {
            let ghost vs = values@.map_values(|o: Option<String>| match o {
                Some(s) => Some(s@),
                None => None,
            });
            let mut names: Vec<String> = Vec::new();
            let mut i: usize = 0;
            while i < values.len()
                invariant
                    i <= values.len(),
                    vs == values@.map_values(|o: Option<String>| match o {
                        Some(s) => Some(s@),
                        None => None,
                    }),
                    forall|x: Seq<char>| #![trigger has_text(texts(names@), x)]
                        has_text(texts(names@), x) <==> lists_shard(vs.take(i as int), x),
                decreases values.len() - i,
            {
                let ghost before = texts(names@);
                proof {
                    assert(vs.take(i + 1) =~= vs.take(i as int).push(vs[i as int]));
                }
                if let Some(s) = &values[i] {
                    names.push(owned(s.as_str()));
                    proof {
                        let now = texts(names@);
                        assert(now =~= before.push(s@));
                        assert forall|x: Seq<char>| has_text(now, x) <==> lists_shard(vs.take(i + 1), x) by {
                            if has_text(now, x) {
                                let k = choose|k: int| 0 <= k < now.len() && #[trigger] now[k] == x;
                                if k == before.len() {
                                    assert(vs.take(i + 1)[i as int] == Some(x));
                                } else {
                                    assert(has_text(before, x));
                                    let m = choose|m: int| 0 <= m < i && #[trigger] vs.take(i as int)[m] == Some(x);
                                    assert(vs.take(i + 1)[m] == Some(x));
                                }
                            }
                            if lists_shard(vs.take(i + 1), x) {
                                let m = choose|m: int| 0 <= m < i + 1 && #[trigger] vs.take(i + 1)[m] == Some(x);
                                if m == i {
                                    assert(now[before.len() as int] == x);
                                } else {
                                    assert(vs.take(i as int)[m] == Some(x));
                                    assert(lists_shard(vs.take(i as int), x));
                                    assert(has_text(before, x));
                                    let k = choose|k: int| 0 <= k < before.len() && #[trigger] before[k] == x;
                                    assert(now[k] == x);
                                }
                            }
                        }
                    }
                } else {
                    proof {
                        assert forall|x: Seq<char>| has_text(before, x) <==> lists_shard(vs.take(i + 1), x) by {
                            if lists_shard(vs.take(i + 1), x) {
                                let m = choose|m: int| 0 <= m < i + 1 && #[trigger] vs.take(i + 1)[m] == Some(x);
                                assert(m != i);
                                assert(vs.take(i as int)[m] == Some(x));
                            }
                            if has_text(before, x) {
                                let m = choose|m: int| 0 <= m < i && #[trigger] vs.take(i as int)[m] == Some(x);
                                assert(vs.take(i + 1)[m] == Some(x));
                            }
                        }
                    }
                }
                i = i + 1;
            }
            proof {
                assert(vs.take(values.len() as int) =~= vs);
            }
            let files = sort_unique(&names);
            Ok(files)
        },
    }
}

/// The shard files that the index text of `model_id` at `revision`
/// lists (see [`shards_from_weight_map`]).
pub fn shard_files(model_id: &str, revision: &str, index_text: &str) -> (r: Result<Vec<String>, HfError>)
    ensures
        match weight_map_of(index_text@) {
            Err(msg) => r matches Err(HfError::Json { context, source })
                && context@ == index_name() && source@ == msg,
            Ok(None) => r matches Err(HfError::Protocol { url, message })
                && url@ == index_url(model_id@, revision@) && message@ == "missing weight_map"@,
            Ok(Some(values)) => r matches Ok(files)
                && strictly_sorted(texts(files@))
                && forall|x: Seq<char>| #![trigger has_text(texts(files@), x)]
                    has_text(texts(files@), x) <==> lists_shard(values, x),
        },
{
    let parsed = parse_weight_map(index_text);
    shards_from_weight_map(model_id, revision, parsed)
}

} // verus!
