//! Synthesis of a `tokenizer.json` for a BPE Qwen3 checkpoint from its
//! `vocab.json`, `merges.txt` and `tokenizer_config.json`: which lines
//! of `merges.txt` are merge rules, in which order the added tokens are
//! listed, and the document that holds them.
use vstd::prelude::*;

use crate::asr::texts;
use crate::text::{chars_of, decimal, decimal_string, owned, string_of};

verus! {

/// The `\n`-separated pieces of `s`, empty ones included.
pub open spec fn split_lf(s: Seq<char>) -> Seq<Seq<char>>
    decreases s.len(),
{
    if s.len() == 0 {
        seq![Seq::empty()]
    } else {
        let p = split_lf(s.drop_last());
        if s.last() == '\n' {
            p.push(Seq::empty())
        } else {
            p.update(p.len() - 1, p.last().push(s.last()))
        }
    }
}

/// A line ended by `\r\n` loses its `\r`.
pub open spec fn strip_cr(l: Seq<char>) -> Seq<char> {
    if l.len() > 0 && l.last() == '\r' {
        l.drop_last()
    } else {
        l
    }
}

/// A merge rule: a line that is neither empty nor a `#` comment.
pub open spec fn is_rule(l: Seq<char>) -> bool {
    l.len() > 0 && l[0] != '#'
}

/// The rules among lines that were each ended by `\n`.
pub open spec fn ended_rules(segs: Seq<Seq<char>>) -> Seq<Seq<char>>
    decreases segs.len(),
{
    if segs.len() == 0 {
        Seq::empty()
    } else if is_rule(strip_cr(segs.last())) {
        ended_rules(segs.drop_last()).push(strip_cr(segs.last()))
    } else {
        ended_rules(segs.drop_last())
    }
}

/// The merge rules of a `merges.txt` text: its lines as `str::lines`
/// reads them (split at `\n`, a `\r` before the `\n` dropped, no empty
/// line after a final `\n`), keeping those that are rules, in order.
pub open spec fn merge_rules(s: Seq<char>) -> Seq<Seq<char>> {
    let segs = split_lf(s);
    let tail = segs.last();
    ended_rules(segs.drop_last()) + if is_rule(tail) {
        seq![tail]
    } else {
        Seq::<Seq<char>>::empty()
    }
}

/// The merge rules of `merges` (see [`merge_rules`]).
pub fn merge_lines(merges: &str) -> (r: Vec<String>)
    ensures
        texts(r@) == merge_rules(merges@),
{
    let v = chars_of(merges);
    let mut out: Vec<String> = Vec::new();
    let mut cur: Vec<char> = Vec::new();
    let mut i: usize = 0;
    assert(v@.take(0) =~= Seq::<char>::empty());
    while i < v.len()
        invariant
            i <= v.len(),
            split_lf(v@.take(i as int)).len() >= 1,
            split_lf(v@.take(i as int)).last() == cur@,
            ended_rules(split_lf(v@.take(i as int)).drop_last()) == texts(out@),
        decreases v.len() - i,
    {
        let ghost before = split_lf(v@.take(i as int));
        let c = v[i];
        proof {
            assert(v@.take(i + 1).drop_last() =~= v@.take(i as int));
            assert(v@.take(i + 1).last() == c);
        }
        if c == '\n' {
            let mut line = cur;
            if line.len() > 0 && line[line.len() - 1] == '\r' {
                line.pop();
            }
            proof {
                assert(line@ =~= strip_cr(before.last()));
                let now = split_lf(v@.take(i + 1));
                assert(now == before.push(Seq::empty()));
                assert(now.drop_last() =~= before);
                assert(before.drop_last().push(before.last()) =~= before);
            }
            if line.len() > 0 && line[0] != '#' {
                out.push(string_of(&line));
                proof {
                    assert(texts(out@) =~= ended_rules(before.drop_last()).push(strip_cr(before.last())));
                }
            }
            cur = Vec::new();
        } else {
            cur.push(c);
            proof {
                let now = split_lf(v@.take(i + 1));
                assert(now == before.update(before.len() - 1, before.last().push(c)));
                assert(now.drop_last() =~= before.drop_last());
            }
        }
        i = i + 1;
    }
    proof {
        assert(v@.take(v.len() as int) =~= v@);
    }
    let ghost done = texts(out@);
    if cur.len() > 0 && cur[0] != '#' {
        out.push(string_of(&cur));
        assert(texts(out@) =~= done + seq![cur@]);
    } else {
        assert(texts(out@) =~= done + Seq::<Seq<char>>::empty());
    }
    out
}

proof fn lemma_split_lf_pieces(s: Seq<char>)
    ensures
        split_lf(s).len() >= 1,
        forall|k: int| 0 <= k < split_lf(s).len() ==> !(#[trigger] split_lf(s)[k]).contains('\n'),
    decreases s.len(),
{
    if s.len() > 0 {
        lemma_split_lf_pieces(s.drop_last());
        let p = split_lf(s.drop_last());
        if s.last() != '\n' {
            assert forall|k: int| 0 <= k < split_lf(s).len() implies !(#[trigger] split_lf(s)[k]).contains('\n') by {
                if k == p.len() - 1 {
                    let q = p.last().push(s.last());
                    if q.contains('\n') {
                        let j = choose|j: int| 0 <= j < q.len() && q[j] == '\n';
                        assert(j < p.last().len());
                        assert(p.last()[j] == '\n');
                    }
                }
            }
        } else {
            assert forall|k: int| 0 <= k < split_lf(s).len() implies !(#[trigger] split_lf(s)[k]).contains('\n') by {
                if k == p.len() {
                    assert(split_lf(s)[k] =~= Seq::<char>::empty());
                }
            }
        }
    }
}

proof fn lemma_ended_rules_clean(segs: Seq<Seq<char>>)
    requires
        forall|k: int| 0 <= k < segs.len() ==> !(#[trigger] segs[k]).contains('\n'),
    ensures
        forall|k: int| 0 <= k < ended_rules(segs).len() ==> is_rule(#[trigger] ended_rules(segs)[k])
            && !ended_rules(segs)[k].contains('\n'),
    decreases segs.len(),
{
    if segs.len() > 0 {
        assert forall|k: int| 0 <= k < segs.drop_last().len() implies !(#[trigger] segs.drop_last()[k]).contains('\n') by {
            assert(segs.drop_last()[k] == segs[k]);
        }
        lemma_ended_rules_clean(segs.drop_last());
        let l = strip_cr(segs.last());
        assert(!segs[segs.len() - 1].contains('\n'));
        if l.contains('\n') {
            let j = choose|j: int| 0 <= j < l.len() && l[j] == '\n';
            assert(segs.last()[j] == '\n');
        }
        let prev = ended_rules(segs.drop_last());
        let now = ended_rules(segs);
        assert forall|k: int| 0 <= k < now.len() implies is_rule(#[trigger] now[k]) && !now[k].contains('\n') by {
            if k < prev.len() {
                assert(now[k] == prev[k]);
            }
        }
    }
}

/// Every merge rule of a `merges.txt` text is one non-empty line that is
/// no `#` comment: no rule holds a line break.
pub proof fn lemma_merge_rules_are_lines(s: Seq<char>)
    ensures
        forall|k: int| 0 <= k < merge_rules(s).len() ==> is_rule(#[trigger] merge_rules(s)[k])
            && !merge_rules(s)[k].contains('\n'),
{
    lemma_split_lf_pieces(s);
    let segs = split_lf(s);
    assert forall|k: int| 0 <= k < segs.drop_last().len() implies !(#[trigger] segs.drop_last()[k]).contains('\n') by {
        assert(segs.drop_last()[k] == segs[k]);
    }
    lemma_ended_rules_clean(segs.drop_last());
    assert(!segs[segs.len() - 1].contains('\n'));
}

/// Value of a decimal digit char.
pub open spec fn digit_value(c: char) -> Option<nat> {
    if c == '0' {
        Some(0)
    } else if c == '1' {
        Some(1)
    } else if c == '2' {
        Some(2)
    } else if c == '3' {
        Some(3)
    } else if c == '4' {
        Some(4)
    } else if c == '5' {
        Some(5)
    } else if c == '6' {
        Some(6)
    } else if c == '7' {
        Some(7)
    } else if c == '8' {
        Some(8)
    } else if c == '9' {
        Some(9)
    } else {
        None
    }
}

/// Every char of `d` is a decimal digit.
pub open spec fn all_digits(d: Seq<char>) -> bool {
    forall|i: int| 0 <= i < d.len() ==> (#[trigger] digit_value(d[i])) is Some
}

/// The number the digits of `d` spell.
pub open spec fn digits_number(d: Seq<char>) -> nat
    decreases d.len(),
{
    if d.len() == 0 {
        0
    } else {
        digits_number(d.drop_last()) * 10 + match digit_value(d.last()) {
            Some(v) => v,
            None => 0,
        }
    }
}

/// `str::parse::<u64>`: an optional `+`, then one or more decimal
/// digits whose number fits in 64 bits.
pub open spec fn parse_u64(s: Seq<char>) -> Option<u64> {
    let d = if s.len() > 0 && s[0] == '+' {
        s.drop_first()
    } else {
        s
    };
    if d.len() > 0 && all_digits(d) && digits_number(d) <= u64::MAX {
        Some(digits_number(d) as u64)
    } else {
        None
    }
}

fn digit(c: char) -> (r: Option<u64>)
    ensures
        match digit_value(c) {
            Some(v) => r == Some(v as u64),
            None => r is None,
        },
{
    match c {
        '0' => Some(0),
        '1' => Some(1),
        '2' => Some(2),
        '3' => Some(3),
        '4' => Some(4),
        '5' => Some(5),
        '6' => Some(6),
        '7' => Some(7),
        '8' => Some(8),
        '9' => Some(9),
        _ => None,
    }
}

proof fn lemma_number_grows(d: Seq<char>, j: int)
    requires
        0 <= j <= d.len(),
    ensures
        digits_number(d.take(j)) <= digits_number(d),
    decreases d.len() - j,
{
    if j < d.len() {
        lemma_number_grows(d, j + 1);
        assert(d.take(j + 1).drop_last() =~= d.take(j));
    } else {
        assert(d.take(j) =~= d);
    }
}

/// Parse a decimal `u64` (see [`parse_u64`]).
pub fn parse_id(s: &str) -> (r: Option<u64>)
    ensures
        r == parse_u64(s@),
{
    let v = chars_of(s);
    let start: usize = if v.len() > 0 && v[0] == '+' { 1 } else { 0 };
    let ghost d = if v@.len() > 0 && v@[0] == '+' { v@.drop_first() } else { v@ };
    assert(d =~= v@.skip(start as int));
    if start == v.len() {
        assert(d.len() == 0);
        return None;
    }
    let mut k: usize = start;
    while k < v.len()
        invariant
            start <= k <= v.len(),
            v@ == s@,
            start == 0 || start == 1,
            (start == 1) == (v@.len() > 0 && v@[0] == '+'),
            d == (if v@.len() > 0 && v@[0] == '+' { v@.drop_first() } else { v@ }),
            d =~= v@.skip(start as int),
            forall|i: int| 0 <= i < k - start ==> (#[trigger] digit_value(d[i])) is Some,
        decreases v.len() - k,
    {
        if digit(v[k]).is_none() {
            assert(digit_value(d[k - start]) is None);
            return None;
        }
        k = k + 1;
    }
    assert(all_digits(d));
    let mut n: u64 = 0;
    let mut k: usize = start;
    assert(d.take(0) =~= Seq::<char>::empty());
    while k < v.len()
        invariant
            start <= k <= v.len(),
            v@ == s@,
            start == 0 || start == 1,
            (start == 1) == (v@.len() > 0 && v@[0] == '+'),
            d == (if v@.len() > 0 && v@[0] == '+' { v@.drop_first() } else { v@ }),
            d =~= v@.skip(start as int),
            all_digits(d),
            n == digits_number(d.take(k - start)),
        decreases v.len() - k,
    {
        let dv = match digit(v[k]) {
            Some(x) => x,
            None => 0,
        };
        proof {
            assert(d.take(k - start + 1).drop_last() =~= d.take(k - start));
            assert(d.take(k - start + 1).last() == v@[k as int]);
            assert(digit_value(d[k - start]) is Some);
            assert(v@[k as int] == d[k - start]);
            assert(digits_number(d.take(k - start + 1)) == n * 10 + dv);
        }
        let m = match n.checked_mul(10) {
            Some(x) => x,
            None => {
                proof {
                    lemma_number_grows(d, k - start + 1);
                }
                return None;
            },
        };
        let next = match m.checked_add(dv) {
            Some(x) => x,
            None => {
                proof {
                    lemma_number_grows(d, k - start + 1);
                }
                return None;
            },
        };
        n = next;
        k = k + 1;
    }
    assert(d.take(d.len() as int) =~= d);
    Some(n)
}

/// One added token: its id, and the position of its key in the
/// decoder map's key list.
pub open spec fn token_before(a: (u64, usize), b: (u64, usize)) -> bool {
    a.0 < b.0 || (a.0 == b.0 && a.1 < b.1)
}

/// The added tokens of a `tokenizer_config.json`, given the keys of its
/// `added_tokens_decoder` map in map order: each key that parses as a
/// `u64` gives its id and position, and the list is sorted by id, ties
/// kept in map order (a stable sort by id).
pub fn order_added_tokens(keys: &Vec<String>) -> (r: Vec<(u64, usize)>)
    ensures
        forall|i: int, j: int| 0 <= i < j < r@.len() ==> token_before(#[trigger] r@[i], #[trigger] r@[j]),
        forall|t: (u64, usize)| #[trigger] r@.contains(t) <==> (t.1 < keys@.len() && parse_u64(keys@[t.1 as int]@) == Some(t.0)),
        r@ == id_order(texts(keys@)),
{
    let r = order_added_tokens_sorted(keys);
    proof {
        let ks = texts(keys@);
        assert forall|t: (u64, usize)| #[trigger] r@.contains(t) <==> (t.1 < ks.len() && parse_u64(ks[t.1 as int]) == Some(t.0)) by {
            if t.1 < ks.len() {
                assert(ks[t.1 as int] == keys@[t.1 as int]@);
            }
        }
        lemma_id_order_is(ks, r@);
    }
    r
}

/// `s` lists the added tokens of `keys` by id, ties in key order.
pub open spec fn is_id_order(keys: Seq<Seq<char>>, s: Seq<(u64, usize)>) -> bool {
    &&& forall|i: int, j: int| 0 <= i < j < s.len() ==> token_before(#[trigger] s[i], #[trigger] s[j])
    &&& forall|t: (u64, usize)| #[trigger] s.contains(t) <==> (t.1 < keys.len() && parse_u64(keys[t.1 as int]) == Some(t.0))
}

/// The added tokens of `keys` in id order (there is exactly one such
/// list, see [`order_added_tokens`]).
pub open spec fn id_order(keys: Seq<Seq<char>>) -> Seq<(u64, usize)> {
    choose|s: Seq<(u64, usize)>| is_id_order(keys, s)
}

/// Two lists sorted strictly by [`token_before`] that hold the same
/// tokens are equal.
proof fn lemma_sorted_unique(a: Seq<(u64, usize)>, b: Seq<(u64, usize)>)
    requires
        forall|i: int, j: int| 0 <= i < j < a.len() ==> token_before(#[trigger] a[i], #[trigger] a[j]),
        forall|i: int, j: int| 0 <= i < j < b.len() ==> token_before(#[trigger] b[i], #[trigger] b[j]),
        forall|t: (u64, usize)| #[trigger] a.contains(t) <==> b.contains(t),
    ensures
        a == b,
    decreases a.len(),
{
    if a.len() == 0 {
        if b.len() > 0 {
            assert(b.contains(b[0]));
            assert(a.contains(b[0]));
        }
        assert(a =~= b);
    } else {
        assert(a.contains(a[0]));
        assert(b.contains(a[0]));
        assert(b.contains(b[0]));
        assert(a.contains(b[0]));
        let k = choose|k: int| 0 <= k < b.len() && b[k] == a[0];
        let m = choose|m: int| 0 <= m < a.len() && a[m] == b[0];
        if k > 0 {
            assert(token_before(b[0], b[k]));
            if m > 0 {
                assert(token_before(a[0], a[m]));
            }
        }
        assert(a[0] == b[0]);
        let a1 = a.drop_first();
        let b1 = b.drop_first();
        assert forall|t: (u64, usize)| #[trigger] a1.contains(t) <==> b1.contains(t) by {
            if a1.contains(t) {
                let i = choose|i: int| 0 <= i < a1.len() && a1[i] == t;
                assert(a[i + 1] == t);
                assert(token_before(a[0], a[i + 1]));
                assert(a.contains(t));
                let j = choose|j: int| 0 <= j < b.len() && b[j] == t;
                assert(j != 0);
                assert(b1[j - 1] == t);
            }
            if b1.contains(t) {
                let i = choose|i: int| 0 <= i < b1.len() && b1[i] == t;
                assert(b[i + 1] == t);
                assert(token_before(b[0], b[i + 1]));
                assert(b.contains(t));
                assert(a.contains(t));
                let j = choose|j: int| 0 <= j < a.len() && a[j] == t;
                assert(j != 0);
                assert(a1[j - 1] == t);
            }
        }
        assert forall|i: int, j: int| 0 <= i < j < a1.len() implies token_before(#[trigger] a1[i], #[trigger] a1[j]) by {
            assert(a1[i] == a[i + 1] && a1[j] == a[j + 1]);
        }
        assert forall|i: int, j: int| 0 <= i < j < b1.len() implies token_before(#[trigger] b1[i], #[trigger] b1[j]) by {
            assert(b1[i] == b[i + 1] && b1[j] == b[j + 1]);
        }
        lemma_sorted_unique(a1, b1);
        assert(a.len() == b.len());
        assert forall|i: int| 0 <= i < a.len() implies a[i] == b[i] by {
            if i > 0 {
                assert(a[i] == a1[i - 1] && b[i] == b1[i - 1]);
            }
        }
        assert(a =~= b);
    }
}

/// A list in id order is the one [`id_order`] names.
proof fn lemma_id_order_is(keys: Seq<Seq<char>>, s: Seq<(u64, usize)>)
    requires
        is_id_order(keys, s),
    ensures
        id_order(keys) == s,
{
    let c = id_order(keys);
    assert(is_id_order(keys, c));
    lemma_sorted_unique(c, s);
}

fn order_added_tokens_sorted(keys: &Vec<String>) -> (r: Vec<(u64, usize)>)
    ensures
        forall|i: int, j: int| 0 <= i < j < r@.len() ==> token_before(#[trigger] r@[i], #[trigger] r@[j]),
        forall|t: (u64, usize)| #[trigger] r@.contains(t) <==> (t.1 < keys@.len() && parse_u64(keys@[t.1 as int]@) == Some(t.0)),
{
    let mut out: Vec<(u64, usize)> = Vec::new();
    let mut n: usize = 0;
    while n < keys.len()
        invariant
            n <= keys@.len(),
            forall|i: int, j: int| 0 <= i < j < out@.len() ==> token_before(#[trigger] out@[i], #[trigger] out@[j]),
            forall|t: (u64, usize)| #[trigger] out@.contains(t) <==> (t.1 < n && parse_u64(keys@[t.1 as int]@) == Some(t.0)),
        decreases keys@.len() - n,
    {
        let ghost before = out@;
        match parse_id(keys[n].as_str()) {
            None => {
                proof {
                    assert forall|t: (u64, usize)| #[trigger] out@.contains(t) <==> (t.1 < n + 1 && parse_u64(keys@[t.1 as int]@) == Some(t.0)) by {
                        if t.1 == n && parse_u64(keys@[t.1 as int]@) == Some(t.0) {
                            assert(false);
                        }
                    }
                }
            },
            Some(id) => {
                let mut p: usize = 0;
                while p < out.len() && out[p].0 <= id
                    invariant
                        p <= out@.len(),
                        out@ == before,
                        forall|k: int| 0 <= k < p ==> (#[trigger] out@[k]).0 <= id,
                    decreases out@.len() - p,
                {
                    p = p + 1;
                }
                proof {
                    assert forall|k: int| 0 <= k < before.len() implies (#[trigger] before[k]).1 < n by {
                        assert(before.contains(before[k]));
                    }
                    if p < before.len() {
                        assert forall|k: int| p <= k < before.len() implies (#[trigger] before[k]).0 > id by {
                            if k > p {
                                assert(token_before(before[p as int], before[k]));
                            }
                        }
                    }
                }
                out.insert(p, (id, n));
                proof {
                    let now = out@;
                    assert(now =~= before.insert(p as int, (id, n)));
                    assert forall|i: int, j: int| 0 <= i < j < now.len() implies token_before(
                        #[trigger] now[i],
                        #[trigger] now[j],
                    ) by {
                        if j < p {
                        } else if j == p {
                        } else if i < p {
                            assert(now[j] == before[j - 1]);
                        } else if i == p {
                            assert(now[j] == before[j - 1]);
                        } else {
                            assert(now[i] == before[i - 1] && now[j] == before[j - 1]);
                        }
                    }
                    assert forall|t: (u64, usize)| #[trigger] now.contains(t) <==> (t.1 < n + 1 && parse_u64(keys@[t.1 as int]@) == Some(t.0)) by {
                        if now.contains(t) {
                            let k = choose|k: int| 0 <= k < now.len() && now[k] == t;
                            if k < p {
                                assert(before[k] == t);
                                assert(before.contains(t));
                            } else if k > p {
                                assert(before[k - 1] == t);
                                assert(before.contains(t));
                            }
                        }
                        if t.1 < n + 1 && parse_u64(keys@[t.1 as int]@) == Some(t.0) {
                            if t.1 == n {
                                assert(now[p as int] == t);
                            } else {
                                assert(before.contains(t));
                                let k = choose|k: int| 0 <= k < before.len() && before[k] == t;
                                if k < p {
                                    assert(now[k] == t);
                                } else {
                                    assert(now[k + 1] == t);
                                }
                            }
                        }
                    }
                }
            },
        }
        n = n + 1;
    }
    out
}

/// What `serde_json` makes of a JSON text: `None` when `from_str` into
/// a `serde_json::Value` fails, else the compact serialisation of the
/// parsed value (`serde_json::to_string`).
pub uninterp spec fn json_text_of(text: Seq<char>) -> Option<Seq<char>>;

/// What `serde_json` makes of a `tokenizer_config.json` text: `None` when
/// it is not JSON; else, for each key of its `added_tokens_decoder`
/// object in the parsed map's order (none when that member is absent or
/// no object), the key and the compact serialisations of the entry's
/// `content` and `special` members (`null` when absent).
pub uninterp spec fn added_entries_of(text: Seq<char>) -> Option<Seq<(Seq<char>, Seq<char>, Seq<char>)>>;

/// A lowercase hexadecimal digit for `d < 16`.
pub open spec fn hex_digit(d: nat) -> char {
    if d < 10 {
        ((d + 48) as u8) as char
    } else {
        ((d + 87) as u8) as char
    }
}

/// How `serde_json` writes one char inside a JSON string: `"` and `\`
/// behind a backslash, the five named control chars as `\b`, `\t`,
/// `\n`, `\f`, `\r`, the other chars below 0x20 as `\u00` and two
/// lowercase hex digits, every other char as it is.
pub open spec fn json_escaped_char(c: char) -> Seq<char> {
    if c == '"' {
        "\\\""@
    } else if c == '\\' {
        "\\\\"@
    } else if c == '\x08' {
        "\\b"@
    } else if c == '\t' {
        "\\t"@
    } else if c == '\n' {
        "\\n"@
    } else if c == '\x0c' {
        "\\f"@
    } else if c == '\r' {
        "\\r"@
    } else if (c as u32) < 0x20 {
        "\\u00"@ + seq![hex_digit((c as u32 / 16) as nat), hex_digit((c as u32 % 16) as nat)]
    } else {
        seq![c]
    }
}

/// The chars of `s`, each written as [`json_escaped_char`] does.
pub open spec fn json_escaped(s: Seq<char>) -> Seq<char>
    decreases s.len(),
{
    if s.len() == 0 {
        Seq::empty()
    } else {
        json_escaped(s.drop_last()) + json_escaped_char(s.last())
    }
}

/// `serde_json::to_string` of a string: the JSON string literal that
/// holds `s`, between double quotes.
pub open spec fn json_string_of(s: Seq<char>) -> Seq<char> {
    "\""@ + json_escaped(s) + "\""@
}

/// `serde_json::from_str::<serde_json::Value>`, then the parsed value
/// written back with `serde_json::to_string`. The result is named by
/// [`json_text_of`]; nothing else is stated.
#[verifier::external_body]
fn parse_json_text(text: &str) -> (r: Option<String>)
    ensures
        match r {
            Some(t) => json_text_of(text@) == Some(t@),
            None => json_text_of(text@) is None,
        },
{
    serde_json::from_str::<serde_json::Value>(text).ok().and_then(|v| serde_json::to_string(&v).ok())
}

/// The view of the parsed added-token entries.
pub open spec fn entries_view(v: Seq<(String, String, String)>) -> Seq<(Seq<char>, Seq<char>, Seq<char>)> {
    v.map_values(|e: (String, String, String)| (e.0@, e.1@, e.2@))
}

/// `serde_json::from_str::<serde_json::Value>` on a tokenizer config,
/// `added_tokens_decoder` read with `get` and `as_object`, and each
/// entry's `content` and `special` (indexing gives `null` when absent)
/// written with `serde_json::to_string`. The result is named by
/// [`added_entries_of`]; nothing else is stated.
#[verifier::external_body]
fn parse_added_entries(text: &str) -> (r: Option<Vec<(String, String, String)>>)
    ensures
        match r {
            Some(v) => added_entries_of(text@) == Some(entries_view(v@)),
            None => added_entries_of(text@) is None,
        },
{
    let cfg: serde_json::Value = serde_json::from_str(text).ok()?;
    let map = cfg.get("added_tokens_decoder").and_then(|v| v.as_object());
    Some(map.map(|m| m.iter().map(|(k, v)| (
        k.clone(),
        serde_json::to_string(&v["content"]).unwrap_or_default(),
        serde_json::to_string(&v["special"]).unwrap_or_default(),
    )).collect()).unwrap_or_default())
}

/// `serde_json::to_string` of a string (`format_escaped_str` in
/// serde_json's `ser.rs`, with its `ESCAPE` table): the string between
/// double quotes, escaped as [`json_string_of`] states.
#[verifier::external_body]
fn json_string(s: &str) -> (r: String)
    ensures
        r@ == json_string_of(s@),
{
    serde_json::to_string(s).unwrap_or_default()
}

/// `items` separated by commas.
pub open spec fn joined(items: Seq<Seq<char>>) -> Seq<char>
    decreases items.len(),
{
    if items.len() == 0 {
        Seq::empty()
    } else if items.len() == 1 {
        items[0]
    } else {
        joined(items.drop_last()) + ","@ + items.last()
    }
}

/// The strings of `items` separated by commas.
fn join_commas(items: &Vec<String>) -> (r: String)
    ensures
        r@ == joined(texts(items@)),
{
    let mut r = String::new();
    let mut i: usize = 0;
    while i < items.len()
        invariant
            i <= items.len(),
            r@ == joined(texts(items@.take(i as int))),
        decreases items.len() - i,
    {
        let ghost before = texts(items@.take(i as int));
        assert(texts(items@.take(i + 1)) =~= before.push(items@[i as int]@));
        assert(before.push(items@[i as int]@).drop_last() =~= before);
        if i > 0 {
            r.append(",");
        }
        r.append(items[i].as_str());
        i = i + 1;
    }
    assert(items@.take(items.len() as int) =~= items@);
    r
}

/// The split pattern of the pre-tokenizer (the GPT-style regex Qwen3
/// uses).
pub open spec fn split_regex() -> Seq<char> {
    "(?i:'s|'t|'re|'ve|'m|'ll|'d)|[^\\r\\n\\p{L}\\p{N}]?\\p{L}+|\\p{N}| ?[^\\s\\p{L}\\p{N}]+[\\r\\n]*|\\s*[\\r\\n]+|\\s+(?!\\S)|\\s+"@
}

/// The byte-level step, used as pre-tokenizer, post-processor and
/// decoder.
pub open spec fn byte_level_text() -> Seq<char> {
    "{\"add_prefix_space\":false,\"trim_offsets\":false,\"type\":\"ByteLevel\",\"use_regex\":false}"@
}

/// One entry of `added_tokens`: the token's id, its `content` and
/// `special` values as given, and every other flag off.
pub open spec fn added_entry_text(id: u64, content: Seq<char>, special: Seq<char>) -> Seq<char> {
    "{\"content\":"@ + content + ",\"id\":"@ + decimal(id as nat)
        + ",\"lstrip\":false,\"normalized\":false,\"rstrip\":false,\"single_word\":false,\"special\":"@
        + special + "}"@
}

/// The added tokens of a parsed config, by id (ties in map order): each
/// key that parses as a `u64` gives the id, with its entry's `content`
/// and `special`.
pub open spec fn added_in_id_order(entries: Seq<(Seq<char>, Seq<char>, Seq<char>)>) -> Seq<(u64, Seq<char>, Seq<char>)> {
    id_order(entries.map_values(|e: (Seq<char>, Seq<char>, Seq<char>)| e.0)).map_values(
        |t: (u64, usize)| (t.0, entries[t.1 as int].1, entries[t.1 as int].2),
    )
}

/// The `tokenizer.json` document of a BPE Qwen3 checkpoint, compact and
/// with the members of each object in key order: NFC normaliser, the
/// split-then-byte-level pre-tokenizer, byte-level post-processor and
/// decoder, a BPE model over `vocab` (a JSON text) and the merge
/// `rules`, and the `added` tokens.
pub open spec fn tokenizer_doc(vocab: Seq<char>, rules: Seq<Seq<char>>, added: Seq<(u64, Seq<char>, Seq<char>)>) -> Seq<char> {
    "{\"added_tokens\":["@
        + joined(added.map_values(|a: (u64, Seq<char>, Seq<char>)| added_entry_text(a.0, a.1, a.2)))
        + "],\"decoder\":"@ + byte_level_text()
        + ",\"model\":{\"byte_fallback\":false,\"continuing_subword_prefix\":\"\",\"dropout\":null,\"end_of_word_suffix\":\"\",\"fuse_unk\":false,\"ignore_merges\":false,\"merges\":["@
        + joined(rules.map_values(|m: Seq<char>| json_string_of(m)))
        + "],\"type\":\"BPE\",\"unk_token\":null,\"vocab\":"@ + vocab
        + "},\"normalizer\":{\"type\":\"NFC\"},\"padding\":null,\"post_processor\":"@ + byte_level_text()
        + ",\"pre_tokenizer\":{\"pretokenizers\":[{\"behavior\":\"Isolated\",\"invert\":false,\"pattern\":{\"Regex\":"@
        + json_string_of(split_regex()) + "},\"type\":\"Split\"},"@ + byte_level_text()
        + "],\"type\":\"Sequence\"},\"truncation\":null,\"version\":\"1.0\"}"@
}

fn byte_level() -> (r: &'static str)
    ensures
        r@ == byte_level_text(),
{
    "{\"add_prefix_space\":false,\"trim_offsets\":false,\"type\":\"ByteLevel\",\"use_regex\":false}"
}

/// The `added_tokens` entries of parsed config entries, in id order.
fn added_token_texts(entries: &Vec<(String, String, String)>) -> (r: Vec<String>)
    ensures
        texts(r@) == added_in_id_order(entries_view(entries@)).map_values(
            |a: (u64, Seq<char>, Seq<char>)| added_entry_text(a.0, a.1, a.2),
        ),
{
    let ghost ev = entries_view(entries@);
    let mut keys: Vec<String> = Vec::new();
    let mut i: usize = 0;
    while i < entries.len()
        invariant
            i <= entries.len(),
            ev == entries_view(entries@),
            texts(keys@) == ev.take(i as int).map_values(|e: (Seq<char>, Seq<char>, Seq<char>)| e.0),
        decreases entries.len() - i,
    {
        let ghost before = keys@;
        keys.push(owned(entries[i].0.as_str()));
        assert(texts(keys@) =~= texts(before).push(ev[i as int].0));
        assert(texts(keys@) =~= ev.take(i + 1).map_values(|e: (Seq<char>, Seq<char>, Seq<char>)| e.0));
        i = i + 1;
    }
    assert(ev.take(entries.len() as int) =~= ev);
    let order = order_added_tokens(&keys);
    let ghost want = added_in_id_order(ev).map_values(
        |a: (u64, Seq<char>, Seq<char>)| added_entry_text(a.0, a.1, a.2),
    );
    let mut out: Vec<String> = Vec::new();
    let mut j: usize = 0;
    while j < order.len()
        invariant
            j <= order.len(),
            ev == entries_view(entries@),
            order@ == id_order(texts(keys@)),
            texts(keys@) == ev.map_values(|e: (Seq<char>, Seq<char>, Seq<char>)| e.0),
            keys@.len() == entries@.len(),
            forall|t: (u64, usize)| #[trigger] order@.contains(t) ==> t.1 < keys@.len(),
            want == added_in_id_order(ev).map_values(|a: (u64, Seq<char>, Seq<char>)| added_entry_text(a.0, a.1, a.2)),
            texts(out@) == want.take(j as int),
        decreases order.len() - j,
    {
        let (id, at) = order[j];
        assert(order@.contains(order@[j as int]));
        let e = &entries[at];
        let mut t = owned("{\"content\":");
        t.append(e.1.as_str());
        t.append(",\"id\":");
        let d = decimal_string(id);
        t.append(d.as_str());
        t.append(",\"lstrip\":false,\"normalized\":false,\"rstrip\":false,\"single_word\":false,\"special\":");
        t.append(e.2.as_str());
        t.append("}");
        proof {
            assert(ev[at as int] == (e.0@, e.1@, e.2@));
            assert(want[j as int] == added_entry_text(id, e.1@, e.2@));
            assert(t@ =~= added_entry_text(id, e.1@, e.2@));
        }
        let ghost before = out@;
        out.push(t);
        assert(texts(out@) =~= texts(before).push(want[j as int]));
        assert(texts(out@) =~= want.take(j + 1));
        j = j + 1;
    }
    assert(want.take(order.len() as int) =~= want);
    out
}

/// The merge rules, each as a JSON string.
fn rule_texts(rules: &Vec<String>) -> (r: Vec<String>)
    ensures
        texts(r@) == texts(rules@).map_values(|m: Seq<char>| json_string_of(m)),
{
    let mut out: Vec<String> = Vec::new();
    let mut i: usize = 0;
    while i < rules.len()
        invariant
            i <= rules.len(),
            texts(out@) == texts(rules@).take(i as int).map_values(|m: Seq<char>| json_string_of(m)),
        decreases rules.len() - i,
    {
        let ghost before = out@;
        let q = json_string(rules[i].as_str());
        out.push(q);
        assert(texts(out@) =~= texts(before).push(json_string_of(texts(rules@)[i as int])));
        assert(texts(out@) =~= texts(rules@).take(i + 1).map_values(|m: Seq<char>| json_string_of(m)));
        i = i + 1;
    }
    assert(texts(rules@).take(rules.len() as int) =~= texts(rules@));
    out
}

/// The `tokenizer.json` synthesised from a checkpoint's `vocab.json`,
/// `merges.txt` and `tokenizer_config.json` texts, as UTF-8 bytes.
/// Fails with `parse vocab.json` when the vocab is not JSON, then with
/// `parse tokenizer_config.json` when the config is not.
pub fn build_qwen3_tokenizer_json(vocab: &str, merges: &str, tok_config: &str) -> (r: Result<Vec<u8>, String>)
    ensures
        json_text_of(vocab@) is None ==> (r matches Err(e) && e@ == "parse vocab.json"@),
        json_text_of(vocab@) is Some && added_entries_of(tok_config@) is None ==> (r matches Err(e)
            && e@ == "parse tokenizer_config.json"@),
        r is Ok <==> (json_text_of(vocab@) is Some && added_entries_of(tok_config@) is Some),
        r matches Ok(b) ==> b@ == vstd::utf8::encode_utf8(tokenizer_doc(
            json_text_of(vocab@)->0,
            merge_rules(merges@),
            added_in_id_order(added_entries_of(tok_config@)->0),
        )),
{
    let vocab_json = match parse_json_text(vocab) {
        Some(v) => v,
        None => return Err(owned("parse vocab.json")),
    };
    let rules = merge_lines(merges);
    let entries = match parse_added_entries(tok_config) {
        Some(e) => e,
        None => return Err(owned("parse tokenizer_config.json")),
    };
    let added = join_commas(&added_token_texts(&entries));
    let merged = join_commas(&rule_texts(&rules));
    let regex = json_string(
        "(?i:'s|'t|'re|'ve|'m|'ll|'d)|[^\\r\\n\\p{L}\\p{N}]?\\p{L}+|\\p{N}| ?[^\\s\\p{L}\\p{N}]+[\\r\\n]*|\\s*[\\r\\n]+|\\s+(?!\\S)|\\s+",
    );
    let mut doc = owned("{\"added_tokens\":[");
    doc.append(added.as_str());
    doc.append("],\"decoder\":");
    doc.append(byte_level());
    doc.append(
        ",\"model\":{\"byte_fallback\":false,\"continuing_subword_prefix\":\"\",\"dropout\":null,\"end_of_word_suffix\":\"\",\"fuse_unk\":false,\"ignore_merges\":false,\"merges\":[",
    );
    doc.append(merged.as_str());
    doc.append("],\"type\":\"BPE\",\"unk_token\":null,\"vocab\":");
    doc.append(vocab_json.as_str());
    doc.append("},\"normalizer\":{\"type\":\"NFC\"},\"padding\":null,\"post_processor\":");
    doc.append(byte_level());
    doc.append(",\"pre_tokenizer\":{\"pretokenizers\":[{\"behavior\":\"Isolated\",\"invert\":false,\"pattern\":{\"Regex\":");
    doc.append(regex.as_str());
    doc.append("},\"type\":\"Split\"},");
    doc.append(byte_level());
    doc.append("],\"type\":\"Sequence\"},\"truncation\":null,\"version\":\"1.0\"}");
    proof {
        assert(doc@ =~= tokenizer_doc(vocab_json@, texts(rules@), added_in_id_order(entries_view(entries@))));
    }
    Ok(doc.as_str().as_bytes_vec())
}

} // verus!
