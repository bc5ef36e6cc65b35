//! Which repository files a full resolve downloads.
use vstd::prelude::*;

use crate::asr::texts;
use crate::text::{
    chars_of, ends_with, ends_with_chars, eq_chars, starts_with, starts_with_chars, string_of,
};

verus! {

/// One file of a repository listing.
#[derive(Debug, Clone, PartialEq, Eq)]
pub struct Sibling {
    /// Path of the file inside the repository.
    pub rfilename: String,
}

/// The names of a listing.
pub open spec fn names_of(s: Seq<Sibling>) -> Seq<Seq<char>> {
    s.map_values(|x: Sibling| x.rfilename@)
}

/// `[name]` when the listing has it, else nothing.
pub open spec fn if_present(names: Seq<Seq<char>>, name: Seq<char>) -> Seq<Seq<char>> {
    if names.contains(name) {
        seq![name]
    } else {
        Seq::empty()
    }
}

/// A shard file of a split checkpoint: `model-*.safetensors`.
pub open spec fn is_shard(n: Seq<char>) -> bool {
    starts_with(n, "model-"@) && ends_with(n, ".safetensors"@)
}

/// The shard names of a listing, in order.
pub open spec fn shards(names: Seq<Seq<char>>) -> Seq<Seq<char>>
    decreases names.len(),
{
    if names.len() == 0 {
        Seq::empty()
    } else if is_shard(names.last()) {
        shards(names.drop_last()).push(names.last())
    } else {
        shards(names.drop_last())
    }
}

/// Tokenizer files: the unified file, else the vocab + merges pair.
pub open spec fn tokenizer_files(names: Seq<Seq<char>>) -> Seq<Seq<char>> {
    if names.contains("tokenizer.json"@) {
        seq!["tokenizer.json"@]
    } else if names.contains("vocab.json"@) && names.contains("merges.txt"@) {
        seq!["vocab.json"@, "merges.txt"@]
    } else {
        Seq::empty()
    }
}

/// Weight files: the shard index, else the single file, else the shards.
pub open spec fn weight_files(names: Seq<Seq<char>>) -> Seq<Seq<char>> {
    if names.contains("model.safetensors.index.json"@) {
        seq!["model.safetensors.index.json"@]
    } else if names.contains("model.safetensors"@) {
        seq!["model.safetensors"@]
    } else {
        shards(names)
    }
}

/// Every wanted name, in order, before repeats are dropped.
pub open spec fn wanted(names: Seq<Seq<char>>) -> Seq<Seq<char>> {
    if_present(names, "config.json"@) + if_present(names, "preprocessor_config.json"@)
        + if_present(names, "tokenizer_config.json"@) + tokenizer_files(names) + weight_files(names)
}

/// `s` with repeats dropped, first occurrence kept.
pub open spec fn dedup(s: Seq<Seq<char>>) -> Seq<Seq<char>>
    decreases s.len(),
{
    if s.len() == 0 {
        Seq::empty()
    } else {
        let prev = dedup(s.drop_last());
        if prev.contains(s.last()) {
            prev
        } else {
            prev.push(s.last())
        }
    }
}

/// The planned download: the wanted names without repeats.
pub open spec fn plan(names: Seq<Seq<char>>) -> Seq<Seq<char>> {
    dedup(wanted(names))
}

/// Whether the listing has a file named `name`.
fn has_name(siblings: &[Sibling], name: &str) -> (r: bool)
    ensures
        r == names_of(siblings@).contains(name@),
{
    let n = chars_of(name);
    let mut i: usize = 0;
    while i < siblings.len()
        invariant
            i <= siblings.len(),
            n@ == name@,
            forall|k: int| 0 <= k < i ==> siblings@[k].rfilename@ != name@,
        decreases siblings.len() - i,
    {
        let c = chars_of(siblings[i].rfilename.as_str());
        if eq_chars(&c, &n) {
            assert(names_of(siblings@)[i as int] == name@);
            return true;
        }
        i = i + 1;
    }
    assert(!names_of(siblings@).contains(name@)) by {
        if names_of(siblings@).contains(name@) {
            let k = choose|k: int| 0 <= k < names_of(siblings@).len() && names_of(siblings@)[k] == name@;
            assert(siblings@[k].rfilename@ == name@);
        }
    }
    false
}

/// Whether `v` holds a string with the text `s`.
fn in_list(v: &Vec<String>, s: &Vec<char>) -> (r: bool)
    ensures
        r == v@.map_values(|x: String| x@).contains(s@),
{
    let mut i: usize = 0;
    while i < v.len()
        invariant
            i <= v.len(),
            forall|k: int| 0 <= k < i ==> v@[k]@ != s@,
        decreases v.len() - i,
    {
        let c = chars_of(v[i].as_str());
        if eq_chars(&c, s) {
            assert(v@.map_values(|x: String| x@)[i as int] == s@);
            return true;
        }
        i = i + 1;
    }
    assert(!v@.map_values(|x: String| x@).contains(s@)) by {
        if v@.map_values(|x: String| x@).contains(s@) {
            let t = v@.map_values(|x: String| x@);
            let k = choose|k: int| 0 <= k < t.len() && t[k] == s@;
            assert(v@[k]@ == s@);
        }
    }
    false
}

/// Append `name` to `out` when the listing has it.
fn push_if_present(out: &mut Vec<String>, siblings: &[Sibling], name: &str)
    ensures
        final(out)@.map_values(|x: String| x@) == old(out)@.map_values(|x: String| x@) + if_present(
            names_of(siblings@),
            name@,
        ),
{
    if has_name(siblings, name) {
        out.push(crate::text::owned(name));
        assert(final(out)@.map_values(|x: String| x@) =~= old(out)@.map_values(|x: String| x@).push(name@));
    } else {
        assert(old(out)@.map_values(|x: String| x@) + Seq::<Seq<char>>::empty() =~= old(out)@.map_values(|x: String| x@));
    }
}

/// Append every shard name of the listing, in order.
fn push_shards(out: &mut Vec<String>, siblings: &[Sibling])
    ensures
        texts(final(out)@) == texts(old(out)@) + shards(names_of(siblings@)),
{
    let prefix = chars_of("model-");
    let suffix = chars_of(".safetensors");
    let mut i: usize = 0;
    while i < siblings.len()
        invariant
            i <= siblings.len(),
            prefix@ == "model-"@,
            suffix@ == ".safetensors"@,
            texts(out@) == texts(old(out)@) + shards(names_of(siblings@.take(i as int))),
        decreases siblings.len() - i,
    {
        let c = chars_of(siblings[i].rfilename.as_str());
        let ghost names_i = names_of(siblings@.take(i + 1));
        assert(names_i.drop_last() =~= names_of(siblings@.take(i as int)));
        assert(names_i.last() == siblings@[i as int].rfilename@);
        let ghost before = texts(out@);
        if starts_with_chars(&c, &prefix) && ends_with_chars(&c, &suffix) {
            assert(is_shard(names_i.last()));
            assert(shards(names_i) == shards(names_i.drop_last()).push(names_i.last()));
            out.push(siblings[i].rfilename.clone());
            assert(texts(out@) =~= before.push(c@));
            assert(texts(out@) =~= texts(old(out)@) + shards(names_i));
        } else {
            assert(!is_shard(names_i.last()));
            assert(shards(names_i) == shards(names_i.drop_last()));
        }
        i = i + 1;
    }
    assert(siblings@.take(siblings.len() as int) =~= siblings@);
}

/// Drop repeated names, keeping the first of each.
fn dedup_names(v: &Vec<String>) -> (r: Vec<String>)
    ensures
        texts(r@) == dedup(texts(v@)),
{
    let mut out: Vec<String> = Vec::new();
    let mut i: usize = 0;
    while i < v.len()
        invariant
            i <= v.len(),
            texts(out@) == dedup(texts(v@.take(i as int))),
        decreases v.len() - i,
    {
        let ghost p = texts(v@.take(i + 1));
        assert(p.drop_last() =~= texts(v@.take(i as int)));
        assert(p.last() == v@[i as int]@);
        let c = chars_of(v[i].as_str());
        if !in_list(&out, &c) {
            out.push(v[i].clone());
            assert(texts(out@) =~= texts(out@.drop_last()).push(c@));
        }
        i = i + 1;
    }
    assert(v@.take(v.len() as int) =~= v@);
    out
}

/// Decide which files a full resolve downloads: `config.json`,
/// `preprocessor_config.json`, `tokenizer_config.json` when present;
/// `tokenizer.json` (else `vocab.json` + `merges.txt`); the shard index,
/// else `model.safetensors`, else every `model-*.safetensors` shard.
/// Repeated names are dropped; the result is a list of names of the
/// listing.
pub fn pick_required_files(siblings: &[Sibling]) -> (r: Vec<String>)
    ensures
        texts(r@) == plan(names_of(siblings@)),
        names_of(siblings@).contains("config.json"@) ==> texts(r@).contains("config.json"@),
        names_of(siblings@).contains("preprocessor_config.json"@) ==> texts(r@).contains("preprocessor_config.json"@),
        names_of(siblings@).contains("tokenizer_config.json"@) ==> texts(r@).contains("tokenizer_config.json"@),
{
    proof {
        lemma_plan_keeps_required_files(names_of(siblings@));
    }
    let ghost names = names_of(siblings@);
    let mut local: Vec<String> = Vec::new();
    push_if_present(&mut local, siblings, "config.json");
    push_if_present(&mut local, siblings, "preprocessor_config.json");
    push_if_present(&mut local, siblings, "tokenizer_config.json");
    let ghost before_tok = texts(local@);
    if has_name(siblings, "tokenizer.json") {
        local.push(crate::text::owned("tokenizer.json"));
        assert(texts(local@) =~= before_tok + tokenizer_files(names));
    } else if has_name(siblings, "vocab.json") && has_name(siblings, "merges.txt") {
        local.push(crate::text::owned("vocab.json"));
        local.push(crate::text::owned("merges.txt"));
        assert(texts(local@) =~= before_tok + tokenizer_files(names));
    } else {
        assert(texts(local@) =~= before_tok + tokenizer_files(names));
    }
    let ghost before_w = texts(local@);
    if has_name(siblings, "model.safetensors.index.json") {
        local.push(crate::text::owned("model.safetensors.index.json"));
        assert(texts(local@) =~= before_w + weight_files(names));
    } else if has_name(siblings, "model.safetensors") {
        local.push(crate::text::owned("model.safetensors"));
        assert(texts(local@) =~= before_w + weight_files(names));
    } else {
        push_shards(&mut local, siblings);
    }
    assert(texts(local@) =~= wanted(names));
    dedup_names(&local)
}

/// A deduplicated list has no repeats, and holds exactly the entries
/// of the input.
pub proof fn lemma_dedup_props(s: Seq<Seq<char>>)
    ensures
        forall|i: int, j: int| 0 <= i < j < dedup(s).len() ==> dedup(s)[i] != dedup(s)[j],
        forall|x: Seq<char>| dedup(s).contains(x) <==> s.contains(x),
    decreases s.len(),
{
    if s.len() > 0 {
        lemma_dedup_props(s.drop_last());
        let prev = dedup(s.drop_last());
        assert forall|x: Seq<char>| dedup(s).contains(x) <==> s.contains(x) by {
            if s.contains(x) {
                let k = choose|k: int| 0 <= k < s.len() && s[k] == x;
                if k < s.len() - 1 {
                    assert(s.drop_last()[k] == x);
                    assert(s.drop_last().contains(x));
                    let j = choose|j: int| 0 <= j < prev.len() && prev[j] == x;
                    assert(dedup(s)[j] == x);
                } else if !prev.contains(s.last()) {
                    assert(dedup(s)[prev.len() as int] == x);
                }
            }
            if dedup(s).contains(x) {
                let j = choose|j: int| 0 <= j < dedup(s).len() && dedup(s)[j] == x;
                if j < prev.len() {
                    assert(prev[j] == x);
                    assert(prev.contains(x));
                    assert(s.drop_last().contains(x));
                    let k = choose|k: int| 0 <= k < s.drop_last().len() && s.drop_last()[k] == x;
                    assert(s[k] == x);
                } else {
                    assert(s[s.len() - 1] == x);
                }
            }
        }
    }
}

/// The download plan names only files of the listing, never twice.
pub proof fn lemma_plan_is_subset_without_repeats(names: Seq<Seq<char>>)
    ensures
        forall|i: int, j: int| 0 <= i < j < plan(names).len() ==> plan(names)[i] != plan(names)[j],
        forall|x: Seq<char>| plan(names).contains(x) ==> names.contains(x),
{
    lemma_dedup_props(wanted(names));
    lemma_shards_in(names);
    assert forall|x: Seq<char>| plan(names).contains(x) implies names.contains(x) by {
        assert(wanted(names).contains(x));
        let w = wanted(names);
        let k = choose|k: int| 0 <= k < w.len() && w[k] == x;
        let a = if_present(names, "config.json"@);
        let b = if_present(names, "preprocessor_config.json"@);
        let c = if_present(names, "tokenizer_config.json"@);
        let d = tokenizer_files(names);
        let e = weight_files(names);
        assert(w =~= a + b + c + d + e);
        if k < a.len() {
            assert(a[k] == x);
        } else if k < a.len() + b.len() {
            assert(b[k - a.len()] == x);
        } else if k < a.len() + b.len() + c.len() {
            assert(c[k - a.len() - b.len()] == x);
        } else if k < a.len() + b.len() + c.len() + d.len() {
            assert(d[k - a.len() - b.len() - c.len()] == x);
        } else {
            assert(e[k - a.len() - b.len() - c.len() - d.len()] == x);
            if !names.contains("model.safetensors.index.json"@) && !names.contains("model.safetensors"@) {
                assert(shards(names).contains(x));
            }
        }
    }
}

/// Every shard file of the listing is among its shard names.
proof fn lemma_shards_complete(names: Seq<Seq<char>>)
    ensures
        forall|x: Seq<char>| names.contains(x) && is_shard(x) ==> #[trigger] shards(names).contains(x),
    decreases names.len(),
{
    if names.len() > 0 {
        lemma_shards_complete(names.drop_last());
        assert forall|x: Seq<char>| names.contains(x) && is_shard(x) implies #[trigger] shards(names).contains(x) by {
            let k = choose|k: int| 0 <= k < names.len() && names[k] == x;
            let p = shards(names.drop_last());
            if k < names.len() - 1 {
                assert(names.drop_last()[k] == x);
                assert(names.drop_last().contains(x));
                assert(p.contains(x));
                let j = choose|j: int| 0 <= j < p.len() && p[j] == x;
                if is_shard(names.last()) {
                    assert(shards(names)[j] == x);
                } else {
                    assert(shards(names) == p);
                }
            } else {
                assert(shards(names)[p.len() as int] == x);
            }
        }
    }
}

/// Whatever else the listing holds, the plan keeps every file a load
/// needs that the listing offers: `config.json`,
/// `preprocessor_config.json` and `tokenizer_config.json` always; the
/// unified `tokenizer.json`, else the `vocab.json` + `merges.txt` pair;
/// the shard index, else the single `model.safetensors`, else every
/// `model-*.safetensors` shard.
pub proof fn lemma_plan_keeps_required_files(names: Seq<Seq<char>>)
    ensures
        names.contains("config.json"@) ==> plan(names).contains("config.json"@),
        names.contains("preprocessor_config.json"@) ==> plan(names).contains("preprocessor_config.json"@),
        names.contains("tokenizer_config.json"@) ==> plan(names).contains("tokenizer_config.json"@),
        names.contains("tokenizer.json"@) ==> plan(names).contains("tokenizer.json"@),
        !names.contains("tokenizer.json"@) && names.contains("vocab.json"@) && names.contains("merges.txt"@)
            ==> plan(names).contains("vocab.json"@) && plan(names).contains("merges.txt"@),
        names.contains("model.safetensors.index.json"@) ==> plan(names).contains("model.safetensors.index.json"@),
        !names.contains("model.safetensors.index.json"@) && names.contains("model.safetensors"@) ==> plan(
            names,
        ).contains("model.safetensors"@),
        !names.contains("model.safetensors.index.json"@) && !names.contains("model.safetensors"@) ==> forall|
            x: Seq<char>,
        |
            names.contains(x) && starts_with(x, "model-"@) && ends_with(x, ".safetensors"@) ==> #[trigger] plan(
                names,
            ).contains(x),
{
    lemma_dedup_props(wanted(names));
    lemma_shards_complete(names);
    let a = if_present(names, "config.json"@);
    let b = if_present(names, "preprocessor_config.json"@);
    let c = if_present(names, "tokenizer_config.json"@);
    let d = tokenizer_files(names);
    let e = weight_files(names);
    let w = wanted(names);
    assert(w == a + b + c + d + e);
    let nb = a.len() as int;
    let nc = nb + b.len();
    let nd = nc + c.len();
    let ne = nd + d.len();
    if names.contains("config.json"@) {
        assert(w[0] == "config.json"@);
        assert(w.contains("config.json"@));
    }
    if names.contains("preprocessor_config.json"@) {
        assert(w[nb] == "preprocessor_config.json"@);
        assert(w.contains("preprocessor_config.json"@));
    }
    if names.contains("tokenizer_config.json"@) {
        assert(w[nc] == "tokenizer_config.json"@);
        assert(w.contains("tokenizer_config.json"@));
    }
    if names.contains("tokenizer.json"@) {
        assert(w[nd] == "tokenizer.json"@);
        assert(w.contains("tokenizer.json"@));
    } else if names.contains("vocab.json"@) && names.contains("merges.txt"@) {
        assert(w[nd] == "vocab.json"@);
        assert(w[nd + 1] == "merges.txt"@);
        assert(w.contains("vocab.json"@));
        assert(w.contains("merges.txt"@));
    }
    if names.contains("model.safetensors.index.json"@) {
        assert(w[ne] == "model.safetensors.index.json"@);
        assert(w.contains("model.safetensors.index.json"@));
    } else if names.contains("model.safetensors"@) {
        assert(w[ne] == "model.safetensors"@);
        assert(w.contains("model.safetensors"@));
    } else {
        assert forall|x: Seq<char>|
            names.contains(x) && starts_with(x, "model-"@) && ends_with(x, ".safetensors"@) implies #[trigger] plan(
                names,
            ).contains(x) by {
            assert(is_shard(x));
            assert(shards(names).contains(x));
            let j = choose|j: int| 0 <= j < e.len() && e[j] == x;
            assert(w[ne + j] == x);
            assert(w.contains(x));
        }
    }
}

/// Every shard name comes from the listing.
proof fn lemma_shards_in(names: Seq<Seq<char>>)
    ensures
        forall|x: Seq<char>| shards(names).contains(x) ==> names.contains(x),
    decreases names.len(),
{
    if names.len() > 0 {
        lemma_shards_in(names.drop_last());
        assert forall|x: Seq<char>| shards(names).contains(x) implies names.contains(x) by {
            let p = shards(names.drop_last());
            let j = choose|j: int| 0 <= j < shards(names).len() && shards(names)[j] == x;
            if j < p.len() {
                assert(p[j] == x);
                assert(p.contains(x));
                assert(names.drop_last().contains(x));
                let k = choose|k: int| 0 <= k < names.drop_last().len() && names.drop_last()[k] == x;
                assert(names[k] == x);
            } else {
                assert(names[names.len() - 1] == x);
            }
        }
    }
}

/// The files of `names` still to fetch: those whose `present` flag is
/// off or missing, in order.
pub open spec fn missing_files(names: Seq<Seq<char>>, present: Seq<bool>) -> Seq<Seq<char>>
    decreases names.len(),
{
    if names.len() == 0 {
        Seq::empty()
    } else {
        let rest = missing_files(names.drop_last(), present);
        if present.len() > names.len() - 1 && present[names.len() - 1] {
            rest
        } else {
            rest.push(names.last())
        }
    }
}

/// The files to download for a resolve: a file already on disk
/// (`present[i]`) is not fetched again; the others keep their order.
pub fn pending_files(names: &Vec<String>, present: &Vec<bool>) -> (r: Vec<String>)
    ensures
        texts(r@) == missing_files(texts(names@), present@),
{
    let mut out: Vec<String> = Vec::new();
    let mut i: usize = 0;
    while i < names.len()
        invariant
            i <= names@.len(),
            texts(out@) == missing_files(texts(names@).take(i as int), present@),
        decreases names.len() - i,
    {
        let ghost ns = texts(names@).take(i + 1);
        assert(ns.drop_last() =~= texts(names@).take(i as int));
        if i >= present.len() || !present[i] {
            let ghost before = out@;
            out.push(names[i].clone());
            assert(texts(out@) =~= texts(before).push(names@[i as int]@));
        }
        i = i + 1;
    }
    assert(texts(names@).take(names.len() as int) =~= texts(names@));
    out
}

} // verus!
