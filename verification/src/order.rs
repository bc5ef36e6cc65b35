//! Lexicographic order on texts (the order of `str`'s `Ord`: char by
//! char on code points, a proper prefix first) and sorted sets of texts.
use vstd::prelude::*;

use crate::asr::texts;
use crate::text::{chars_of, eq_chars, owned};

verus! {

/// `a` sorts strictly before `b`.
pub open spec fn lex_lt(a: Seq<char>, b: Seq<char>) -> bool
    decreases a.len(),
{
    if a.len() == 0 {
        b.len() > 0
    } else if b.len() == 0 {
        false
    } else if a[0] != b[0] {
        (a[0] as int) < (b[0] as int)
    } else {
        lex_lt(a.drop_first(), b.drop_first())
    }
}

/// Every element sorts strictly before every later one (so none repeats).
pub open spec fn strictly_sorted(s: Seq<Seq<char>>) -> bool {
    forall|i: int, j: int| 0 <= i < j < s.len() ==> lex_lt(#[trigger] s[i], #[trigger] s[j])
}

/// No text sorts before itself.
pub proof fn lemma_lex_irreflexive(a: Seq<char>)
    ensures
        !lex_lt(a, a),
    decreases a.len(),
{
    if a.len() > 0 {
        lemma_lex_irreflexive(a.drop_first());
    }
}

/// The order is transitive.
pub proof fn lemma_lex_transitive(a: Seq<char>, b: Seq<char>, c: Seq<char>)
    requires
        lex_lt(a, b),
        lex_lt(b, c),
    ensures
        lex_lt(a, c),
    decreases a.len(),
{
    if a.len() > 0 && b.len() > 0 && c.len() > 0 && a[0] == b[0] && b[0] == c[0] {
        lemma_lex_transitive(a.drop_first(), b.drop_first(), c.drop_first());
    }
}

/// Of two different texts one sorts before the other.
pub proof fn lemma_lex_total(a: Seq<char>, b: Seq<char>)
    requires
        a != b,
    ensures
        lex_lt(a, b) || lex_lt(b, a),
    decreases a.len(),
{
    if a.len() == 0 && b.len() == 0 {
        assert(a =~= b);
    } else if a.len() > 0 && b.len() > 0 && a[0] == b[0] {
        if a.drop_first() == b.drop_first() {
            assert(a.drop_first().len() == b.drop_first().len());
            assert(a.len() == b.len());
            assert forall|i: int| 0 <= i < a.len() implies a[i] == b[i] by {
                if i > 0 {
                    assert(a[i] == a.drop_first()[i - 1]);
                    assert(b[i] == b.drop_first()[i - 1]);
                }
            }
            assert(a =~= b);
        } else {
            lemma_lex_total(a.drop_first(), b.drop_first());
        }
    }
}

/// Whether `a` sorts strictly before `b`.
pub fn lex_less(a: &Vec<char>, b: &Vec<char>) -> (r: bool)
    ensures
        r == lex_lt(a@, b@),
{
    let mut i: usize = 0;
    assert(a@.skip(0) =~= a@);
    assert(b@.skip(0) =~= b@);
    while i < a.len() && i < b.len() && a[i] == b[i]
        invariant
            i <= a.len(),
            i <= b.len(),
            lex_lt(a@, b@) == lex_lt(a@.skip(i as int), b@.skip(i as int)),
        decreases a.len() - i,
    {
        proof {
            let sa = a@.skip(i as int);
            let sb = b@.skip(i as int);
            assert(sa.drop_first() =~= a@.skip(i + 1));
            assert(sb.drop_first() =~= b@.skip(i + 1));
        }
        i = i + 1;
    }
    if i == a.len() {
        assert(a@.skip(i as int).len() == 0);
        i < b.len()
    } else if i == b.len() {
        assert(b@.skip(i as int).len() == 0);
        false
    } else {
        let x = a[i];
        let y = b[i];
        assert(a@.skip(i as int)[0] == x && b@.skip(i as int)[0] == y);
        let r = x < y;
        assert(r == ((x as int) < (y as int)));
        r
    }
}

/// Whether some element of `s` has the text `x`.
pub open spec fn has_text(s: Seq<Seq<char>>, x: Seq<char>) -> bool {
    exists|k: int| 0 <= k < s.len() && s[k] == x
}

/// The texts of `v`, sorted, each once: the result is strictly sorted
/// and holds exactly the texts that occur in `v`.
pub fn sort_unique(v: &Vec<String>) -> (r: Vec<String>)
    ensures
        strictly_sorted(texts(r@)),
        forall|x: Seq<char>|
            #![trigger has_text(texts(r@), x)]
            #![trigger has_text(texts(v@), x)]
            has_text(texts(r@), x) <==> has_text(texts(v@), x),
{
    let ghost src = texts(v@);
    let mut out: Vec<String> = Vec::new();
    let mut n: usize = 0;
    while n < v.len()
        invariant
            n <= v.len(),
            src == texts(v@),
            strictly_sorted(texts(out@)),
            forall|x: Seq<char>|
                #![trigger has_text(texts(out@), x)]
                #![trigger has_text(src.take(n as int), x)]
                has_text(texts(out@), x) <==> has_text(src.take(n as int), x),
        decreases v.len() - n,
    {
        let ghost cur = texts(out@);
        let x = chars_of(v[n].as_str());
        let mut p: usize = 0;
        while p < out.len() && lex_less(&chars_of(out[p].as_str()), &x)
            invariant
                p <= out.len(),
                cur == texts(out@),
                forall|i: int| 0 <= i < p ==> lex_lt(#[trigger] cur[i], x@),
            decreases out.len() - p,
        {
            p = p + 1;
        }
        proof {
            assert(src.take(n + 1) =~= src.take(n as int).push(x@));
        }
        let same = p < out.len() && eq_chars(&chars_of(out[p].as_str()), &x);
        if !same {
            proof {
                if p < cur.len() {
                    lemma_lex_total(cur[p as int], x@);
                    assert forall|j: int| p <= j < cur.len() implies lex_lt(x@, #[trigger] cur[j]) by {
                        if j > p {
                            lemma_lex_transitive(x@, cur[p as int], cur[j]);
                        }
                    }
                }
            }
            out.insert(p, owned(v[n].as_str()));
            proof {
                let now = texts(out@);
                assert(now =~= cur.insert(p as int, x@));
                assert forall|i: int, j: int| 0 <= i < j < now.len() implies lex_lt(
                    #[trigger] now[i],
                    #[trigger] now[j],
                ) by {
                    if j < p {
                    } else if j == p {
                    } else if i < p {
                        lemma_lex_transitive(now[i], x@, now[j]);
                    } else if i == p {
                    } else {
                        assert(now[i] == cur[i - 1] && now[j] == cur[j - 1]);
                    }
                }
                assert forall|y: Seq<char>| has_text(now, y) <==> has_text(src.take(n + 1), y) by {
                    if has_text(now, y) {
                        let k = choose|k: int| 0 <= k < now.len() && #[trigger] now[k] == y;
                        if k == p {
                            assert(src.take(n + 1)[n as int] == y);
                        } else if k < p {
                            assert(has_text(cur, y));
                            let m = choose|m: int| 0 <= m < n && #[trigger] src.take(n as int)[m] == y;
                            assert(src.take(n + 1)[m] == y);
                        } else {
                            assert(cur[k - 1] == y);
                            assert(has_text(cur, y));
                            let m = choose|m: int| 0 <= m < n && #[trigger] src.take(n as int)[m] == y;
                            assert(src.take(n + 1)[m] == y);
                        }
                    }
                    if has_text(src.take(n + 1), y) {
                        let m = choose|m: int| 0 <= m < n + 1 && #[trigger] src.take(n + 1)[m] == y;
                        if m == n {
                            assert(now[p as int] == y);
                        } else {
                            assert(src.take(n as int)[m] == y);
                            assert(has_text(cur, y));
                            let k = choose|k: int| 0 <= k < cur.len() && #[trigger] cur[k] == y;
                            if k < p {
                                assert(now[k] == y);
                            } else {
                                assert(now[k + 1] == y);
                            }
                        }
                    }
                }
            }
        } else {
            proof {
                assert forall|y: Seq<char>| has_text(cur, y) <==> has_text(src.take(n + 1), y) by {
                    if has_text(src.take(n + 1), y) {
                        let m = choose|m: int| 0 <= m < n + 1 && #[trigger] src.take(n + 1)[m] == y;
                        if m == n {
                            assert(cur[p as int] == y);
                        } else {
                            assert(src.take(n as int)[m] == y);
                        }
                    }
                    if has_text(cur, y) {
                        let m = choose|m: int| 0 <= m < n && #[trigger] src.take(n as int)[m] == y;
                        assert(src.take(n + 1)[m] == y);
                    }
                }
            }
        }
        n = n + 1;
    }
    proof {
        assert(src.take(v.len() as int) =~= src);
    }
    out
}

/// Two strictly sorted sequences with the same texts are equal: the
/// sorted, repeat-free form of a collection is unique.
pub proof fn lemma_sorted_unique(a: Seq<Seq<char>>, b: Seq<Seq<char>>)
    requires
        strictly_sorted(a),
        strictly_sorted(b),
        forall|x: Seq<char>| #![trigger has_text(a, x)] #![trigger has_text(b, x)]
            has_text(a, x) <==> has_text(b, x),
    ensures
        a == b,
    decreases a.len() + b.len(),
{
    if a.len() == 0 {
        if b.len() > 0 {
            assert(has_text(b, b[0]));
        }
        assert(a =~= b);
    } else if b.len() == 0 {
        assert(has_text(a, a[0]));
    } else {
        assert(has_text(a, a[0]));
        assert(has_text(b, b[0]));
        let ka = choose|k: int| 0 <= k < a.len() && #[trigger] a[k] == b[0];
        let kb = choose|k: int| 0 <= k < b.len() && #[trigger] b[k] == a[0];
        if ka > 0 && kb > 0 {
            lemma_lex_transitive(a[0], a[ka], a[0]);
            lemma_lex_irreflexive(a[0]);
        }
        if ka > 0 && kb == 0 {
            lemma_lex_irreflexive(a[0]);
        }
        if ka == 0 && kb > 0 {
            lemma_lex_irreflexive(b[0]);
        }
        assert(a[0] == b[0]);
        let ta = a.drop_first();
        let tb = b.drop_first();
        assert forall|x: Seq<char>| has_text(ta, x) <==> has_text(tb, x) by {
            if has_text(ta, x) {
                let k = choose|k: int| 0 <= k < ta.len() && #[trigger] ta[k] == x;
                assert(a[k + 1] == x);
                assert(has_text(a, x));
                let m = choose|m: int| 0 <= m < b.len() && #[trigger] b[m] == x;
                if m == 0 {
                    lemma_lex_irreflexive(a[0]);
                }
                assert(tb[m - 1] == x);
            }
            if has_text(tb, x) {
                let k = choose|k: int| 0 <= k < tb.len() && #[trigger] tb[k] == x;
                assert(b[k + 1] == x);
                assert(has_text(b, x));
                let m = choose|m: int| 0 <= m < a.len() && #[trigger] a[m] == x;
                if m == 0 {
                    lemma_lex_irreflexive(b[0]);
                }
                assert(ta[m - 1] == x);
            }
        }
        lemma_sorted_unique(ta, tb);
        assert(a.len() == b.len());
        assert forall|i: int| 0 <= i < a.len() implies a[i] == b[i] by {
            if i > 0 {
                assert(a[i] == ta[i - 1]);
                assert(b[i] == tb[i - 1]);
            }
        }
        assert(a =~= b);
    }
}

} // verus!
