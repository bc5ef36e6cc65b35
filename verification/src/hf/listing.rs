//! The order in which cached models are listed: by path, which under one
//! cache root means by organisation, then name, then revision, each
//! compared as `Path` compares components.
use vstd::prelude::*;

use crate::hf::cache::CachedModel;
use crate::order::{lex_less, lex_lt, lemma_lex_irreflexive, lemma_lex_total, lemma_lex_transitive};
use crate::text::{chars_of, eq_chars};

verus! {

/// A model directory found under the cache root, with the three path
/// components below the root that name it.
#[derive(Debug, Clone, PartialEq, Eq)]
pub struct CachedEntry {
    /// Organisation directory.
    pub org: String,
    /// Model name directory.
    pub name: String,
    /// Revision directory.
    pub revision: String,
    /// What the directory holds.
    pub model: CachedModel,
}

/// The path key of an entry.
pub open spec fn key_of(e: CachedEntry) -> (Seq<char>, Seq<char>, Seq<char>) {
    (e.org@, e.name@, e.revision@)
}

/// `a` sorts before `b`: component by component.
pub open spec fn key_lt(a: (Seq<char>, Seq<char>, Seq<char>), b: (Seq<char>, Seq<char>, Seq<char>)) -> bool {
    lex_lt(a.0, b.0) || (a.0 == b.0 && (lex_lt(a.1, b.1) || (a.1 == b.1 && lex_lt(a.2, b.2))))
}

proof fn lemma_key_irreflexive(a: (Seq<char>, Seq<char>, Seq<char>))
    ensures
        !key_lt(a, a),
{
    lemma_lex_irreflexive(a.0);
    lemma_lex_irreflexive(a.1);
    lemma_lex_irreflexive(a.2);
}

proof fn lemma_key_transitive(a: (Seq<char>, Seq<char>, Seq<char>), b: (Seq<char>, Seq<char>, Seq<char>), c: (Seq<char>, Seq<char>, Seq<char>))
    requires
        key_lt(a, b),
        key_lt(b, c),
    ensures
        key_lt(a, c),
{
    if lex_lt(a.0, b.0) && lex_lt(b.0, c.0) {
        lemma_lex_transitive(a.0, b.0, c.0);
    }
    if lex_lt(a.1, b.1) && lex_lt(b.1, c.1) {
        lemma_lex_transitive(a.1, b.1, c.1);
    }
    if lex_lt(a.2, b.2) && lex_lt(b.2, c.2) {
        lemma_lex_transitive(a.2, b.2, c.2);
    }
}

proof fn lemma_key_total(a: (Seq<char>, Seq<char>, Seq<char>), b: (Seq<char>, Seq<char>, Seq<char>))
    requires
        a != b,
    ensures
        key_lt(a, b) || key_lt(b, a),
{
    if a.0 != b.0 {
        lemma_lex_total(a.0, b.0);
    } else if a.1 != b.1 {
        lemma_lex_total(a.1, b.1);
    } else {
        assert(a.2 != b.2);
        lemma_lex_total(a.2, b.2);
    }
}

fn key_less(a: &CachedEntry, b: &CachedEntry) -> (r: bool)
    ensures
        r == key_lt(key_of(*a), key_of(*b)),
{
    let (ao, bo) = (chars_of(a.org.as_str()), chars_of(b.org.as_str()));
    if lex_less(&ao, &bo) {
        return true;
    }
    if !eq_chars(&ao, &bo) {
        return false;
    }
    let (an, bn) = (chars_of(a.name.as_str()), chars_of(b.name.as_str()));
    if lex_less(&an, &bn) {
        return true;
    }
    if !eq_chars(&an, &bn) {
        return false;
    }
    lex_less(&chars_of(a.revision.as_str()), &chars_of(b.revision.as_str()))
}

fn key_same(a: &CachedEntry, b: &CachedEntry) -> (r: bool)
    ensures
        r == (key_of(*a) == key_of(*b)),
{
    eq_chars(&chars_of(a.org.as_str()), &chars_of(b.org.as_str()))
        && eq_chars(&chars_of(a.name.as_str()), &chars_of(b.name.as_str()))
        && eq_chars(&chars_of(a.revision.as_str()), &chars_of(b.revision.as_str()))
}

/// Every entry of `s` sorts strictly before every later one.
pub open spec fn sorted_by_key(s: Seq<CachedEntry>) -> bool {
    forall|i: int, j: int| 0 <= i < j < s.len() ==> key_lt(key_of(#[trigger] s[i]), key_of(#[trigger] s[j]))
}

/// `e` is the last entry of `s` with its key.
pub open spec fn last_with_key(s: Seq<CachedEntry>, e: CachedEntry) -> bool {
    exists|j: int|
        0 <= j < s.len() && #[trigger] s[j] == e && forall|m: int| j < m < s.len() ==> key_of(#[trigger] s[m]) != key_of(e)
}

/// Some entry of `s` has key `k`.
pub open spec fn has_key(s: Seq<CachedEntry>, k: (Seq<char>, Seq<char>, Seq<char>)) -> bool {
    exists|j: int| 0 <= j < s.len() && key_of(#[trigger] s[j]) == k
}

/// The listing order of cached models, as a map keyed by path gives it:
/// sorted by path, one entry a path (the last one given for it), and
/// every path that was found.
pub fn order_cached(entries: Vec<CachedEntry>) -> (r: Vec<CachedEntry>)
    ensures
        sorted_by_key(r@),
        forall|i: int| 0 <= i < r@.len() ==> last_with_key(entries@, #[trigger] r@[i]),
        forall|k: (Seq<char>, Seq<char>, Seq<char>)| #[trigger] has_key(entries@, k) ==> has_key(r@, k),
{
    let ghost orig = entries@;
    let mut rest = entries;
    let mut out: Vec<CachedEntry> = Vec::new();
    let ghost mut n: int = 0;
    assert(orig.skip(0) =~= orig);
    while rest.len() > 0
        invariant
            0 <= n <= orig.len(),
            rest@ == orig.skip(n),
            sorted_by_key(out@),
            forall|i: int| 0 <= i < out@.len() ==> last_with_key(orig.take(n), #[trigger] out@[i]),
            forall|k: (Seq<char>, Seq<char>, Seq<char>)| #[trigger] has_key(orig.take(n), k) ==> has_key(out@, k),
        decreases rest@.len(),
    {
        let ghost before = out@;
        let ghost seen = orig.take(n);
        let ghost now_seen = orig.take(n + 1);
        let e = rest.remove(0);
        proof {
            assert(e == orig[n]);
            assert(now_seen =~= seen.push(e));
            assert(rest@ =~= orig.skip(n + 1));
        }
        let mut p: usize = 0;
        while p < out.len() && key_less(&out[p], &e)
            invariant
                p <= out@.len(),
                out@ == before,
                forall|i: int| 0 <= i < p ==> key_lt(key_of(#[trigger] out@[i]), key_of(e)),
            decreases out@.len() - p,
        {
            p = p + 1;
        }
        let ghost k_e = key_of(e);
        if p < out.len() && key_same(&out[p], &e) {
            out.set(p, e);
            proof {
                let now = out@;
                assert(now =~= before.update(p as int, e));
                assert forall|i: int| 0 <= i < now.len() implies key_of(#[trigger] now[i]) == key_of(before[i]) by {}
                assert forall|i: int, j: int| 0 <= i < j < now.len() implies key_lt(key_of(#[trigger] now[i]), key_of(#[trigger] now[j])) by {
                    assert(key_of(now[i]) == key_of(before[i]) && key_of(now[j]) == key_of(before[j]));
                }
                assert forall|i: int| 0 <= i < now.len() implies last_with_key(now_seen, #[trigger] now[i]) by {
                    if i == p {
                        assert(now_seen[n] == e);
                    } else {
                        assert(last_with_key(seen, before[i]));
                        let j = choose|j: int| 0 <= j < seen.len() && #[trigger] seen[j] == before[i] && forall|m: int| j < m < seen.len() ==> key_of(#[trigger] seen[m]) != key_of(before[i]);
                        if i < p {
                            lemma_key_irreflexive(key_of(before[i]));
                            assert(key_lt(key_of(before[i]), key_of(before[p as int])));
                        } else {
                            lemma_key_irreflexive(key_of(before[i]));
                            assert(key_lt(key_of(before[p as int]), key_of(before[i])));
                        }
                        assert(key_of(e) != key_of(before[i]));
                        assert(now_seen[j] == before[i]);
                        assert forall|m: int| j < m < now_seen.len() implies key_of(#[trigger] now_seen[m]) != key_of(now[i]) by {
                            if m < seen.len() {
                                assert(now_seen[m] == seen[m]);
                            }
                        }
                    }
                }
                assert forall|k: (Seq<char>, Seq<char>, Seq<char>)| #[trigger] has_key(now_seen, k) implies has_key(now, k) by {
                    if k == k_e {
                        assert(key_of(now[p as int]) == k);
                    } else {
                        let j = choose|j: int| 0 <= j < now_seen.len() && key_of(#[trigger] now_seen[j]) == k;
                        assert(j < seen.len());
                        assert(seen[j] == now_seen[j]);
                        assert(has_key(seen, k));
                        let i = choose|i: int| 0 <= i < before.len() && key_of(#[trigger] before[i]) == k;
                        assert(i != p);
                        assert(key_of(now[i]) == k);
                    }
                }
            }
        } else {
            proof {
                if p < before.len() {
                    lemma_key_total(key_of(before[p as int]), k_e);
                    assert forall|j: int| p <= j < before.len() implies key_lt(k_e, key_of(#[trigger] before[j])) by {
                        if j > p {
                            lemma_key_transitive(k_e, key_of(before[p as int]), key_of(before[j]));
                        }
                    }
                }
                assert forall|j: int| 0 <= j < before.len() implies key_of(#[trigger] before[j]) != k_e by {
                    lemma_key_irreflexive(k_e);
                }
            }
            out.insert(p, e);
            proof {
                let now = out@;
                assert(now =~= before.insert(p as int, e));
                assert forall|i: int, j: int| 0 <= i < j < now.len() implies key_lt(key_of(#[trigger] now[i]), key_of(#[trigger] now[j])) by {
                    if j < p {
                    } else if j == p {
                    } else if i < p {
                        assert(now[j] == before[j - 1]);
                        lemma_key_transitive(key_of(now[i]), k_e, key_of(now[j]));
                    } else if i == p {
                        assert(now[j] == before[j - 1]);
                    } else {
                        assert(now[i] == before[i - 1] && now[j] == before[j - 1]);
                    }
                }
                assert forall|i: int| 0 <= i < now.len() implies last_with_key(now_seen, #[trigger] now[i]) by {
                    if i == p {
                        assert(now_seen[n] == e);
                    } else {
                        let b = if i < p { i } else { i - 1 };
                        assert(now[i] == before[b]);
                        assert(last_with_key(seen, before[b]));
                        let j = choose|j: int| 0 <= j < seen.len() && #[trigger] seen[j] == before[b] && forall|m: int| j < m < seen.len() ==> key_of(#[trigger] seen[m]) != key_of(before[b]);
                        assert(now_seen[j] == before[b]);
                        assert forall|m: int| j < m < now_seen.len() implies key_of(#[trigger] now_seen[m]) != key_of(now[i]) by {
                            if m < seen.len() {
                                assert(now_seen[m] == seen[m]);
                            }
                        }
                    }
                }
                assert forall|k: (Seq<char>, Seq<char>, Seq<char>)| #[trigger] has_key(now_seen, k) implies has_key(now, k) by {
                    if k == k_e {
                        assert(key_of(now[p as int]) == k);
                    } else {
                        let j = choose|j: int| 0 <= j < now_seen.len() && key_of(#[trigger] now_seen[j]) == k;
                        assert(j < seen.len());
                        assert(seen[j] == now_seen[j]);
                        assert(has_key(seen, k));
                        let i = choose|i: int| 0 <= i < before.len() && key_of(#[trigger] before[i]) == k;
                        if i < p {
                            assert(key_of(now[i]) == k);
                        } else {
                            assert(key_of(now[i + 1]) == k);
                        }
                    }
                }
            }
        }
        proof {
            n = n + 1;
        }
    }
    proof {
        assert(orig.take(n) =~= orig);
    }
    out
}

} // verus!
