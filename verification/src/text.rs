//! Character-level text helpers shared by every module: ASCII case
//! folding, Unicode whitespace trimming, substring search, UTF-8
//! widths and decimal rendering. Every helper works on the `Seq<char>`
//! view of a string so contracts elsewhere can speak of text directly.
use vstd::prelude::*;
use vstd::string::StrSliceExecFns;

verus! {

broadcast use vstd::string::group_string_axioms;

// ---------------------------------------------------------------------
// Specifications
// ---------------------------------------------------------------------

/// `char::to_ascii_lowercase`.
pub open spec fn lower_char(c: char) -> char {
    if 'A' <= c && c <= 'Z' {
        ((c as u8) + 32) as u8 as char
    } else {
        c
    }
}

/// `str::to_ascii_lowercase`, char by char.
pub open spec fn ascii_lower(s: Seq<char>) -> Seq<char> {
    s.map_values(|c: char| lower_char(c))
}

/// `char::is_whitespace` (the Unicode `White_Space` property).
pub open spec fn is_ws(c: char) -> bool {
    ||| c == '\t' || c == '\n' || c == '\x0B' || c == '\x0C' || c == '\r' || c == ' '
    ||| c == '\u{85}' || c == '\u{A0}' || c == '\u{1680}'
    ||| ('\u{2000}' <= c && c <= '\u{200A}')
    ||| c == '\u{2028}' || c == '\u{2029}' || c == '\u{202F}' || c == '\u{205F}'
    ||| c == '\u{3000}'
}

/// Index of the first non-whitespace char at or after `i` (or `s.len()`).
pub open spec fn first_non_ws_from(s: Seq<char>, i: int) -> int
    decreases s.len() - i,
{
    if i < 0 || i >= s.len() {
        s.len() as int
    } else if is_ws(s[i]) {
        first_non_ws_from(s, i + 1)
    } else {
        i
    }
}

/// One past the index of the last non-whitespace char before `j` (or 0).
pub open spec fn last_non_ws_before(s: Seq<char>, j: int) -> int
    decreases j,
{
    if j <= 0 || j > s.len() {
        0
    } else if is_ws(s[j - 1]) {
        last_non_ws_before(s, j - 1)
    } else {
        j
    }
}

/// `str::trim`: drop leading and trailing Unicode whitespace.
pub open spec fn trim(s: Seq<char>) -> Seq<char> {
    let a = first_non_ws_from(s, 0);
    let b = last_non_ws_before(s, s.len() as int);
    if a < b {
        s.subrange(a, b)
    } else {
        Seq::empty()
    }
}

/// `t` is a prefix of `s`.
pub open spec fn starts_with(s: Seq<char>, t: Seq<char>) -> bool {
    t.len() <= s.len() && s.subrange(0, t.len() as int) == t
}

/// `t` is a suffix of `s`.
pub open spec fn ends_with(s: Seq<char>, t: Seq<char>) -> bool {
    t.len() <= s.len() && s.subrange(s.len() - t.len(), s.len() as int) == t
}

/// `t` occurs in `s` at position `i`.
pub open spec fn occurs_at(s: Seq<char>, t: Seq<char>, i: int) -> bool {
    0 <= i && i + t.len() <= s.len() && s.subrange(i, i + t.len()) == t
}

/// `str::contains` for a string pattern.
pub open spec fn contains(s: Seq<char>, t: Seq<char>) -> bool {
    exists|i: int| #[trigger] occurs_at(s, t, i)
}

/// Number of bytes of the UTF-8 encoding of `c` (`char::len_utf8`).
pub open spec fn char_width(c: char) -> nat {
    if (c as u32) < 0x80 {
        1
    } else if (c as u32) < 0x800 {
        2
    } else if (c as u32) < 0x10000 {
        3
    } else {
        4
    }
}

/// Number of bytes of the UTF-8 encoding of `s` (`str::len`).
pub open spec fn utf8_len(s: Seq<char>) -> nat
    decreases s.len(),
{
    if s.len() == 0 {
        0
    } else {
        char_width(s[0]) + utf8_len(s.drop_first())
    }
}

/// Decimal digits of `n` (`u64` rendered by `{}`).
pub open spec fn decimal(n: nat) -> Seq<char>
    decreases n,
{
    if n < 10 {
        seq![digit_char(n)]
    } else {
        decimal(n / 10).push(digit_char(n % 10))
    }
}

/// The ASCII digit for `d < 10`.
pub open spec fn digit_char(d: nat) -> char {
    ((d + 48) as u8) as char
}

/// What `format!("{:?}", s)` renders for a string slice (quoted and
/// escaped by the standard library's `Debug` impl for `str`).
pub uninterp spec fn debug_quoted(s: Seq<char>) -> Seq<char>;

// ---------------------------------------------------------------------
// Lemmas
// ---------------------------------------------------------------------

/// The standard UTF-8 encoding has `utf8_len` bytes.
pub proof fn lemma_encode_len(s: Seq<char>)
    ensures
        vstd::utf8::encode_utf8(s).len() == utf8_len(s),
    decreases s.len(),
{
    if s.len() > 0 {
        lemma_encode_len(s.drop_first());
        let c = s[0];
        vstd::utf8::char_is_scalar(c);
    }
}

/// Byte length of a concatenation.
pub proof fn lemma_utf8_len_concat(a: Seq<char>, b: Seq<char>)
    ensures
        utf8_len(a + b) == utf8_len(a) + utf8_len(b),
    decreases a.len(),
{
    if a.len() == 0 {
        assert(a + b =~= b);
    } else {
        assert((a + b).drop_first() =~= a.drop_first() + b);
        lemma_utf8_len_concat(a.drop_first(), b);
    }
}

/// Byte length of a push.
pub proof fn lemma_utf8_len_push(a: Seq<char>, c: char)
    ensures
        utf8_len(a.push(c)) == utf8_len(a) + char_width(c),
{
    lemma_utf8_len_concat(a, seq![c]);
    assert(a.push(c) =~= a + seq![c]);
    assert(seq![c].drop_first() =~= Seq::<char>::empty());
    assert(utf8_len(seq![c]) == char_width(c) + utf8_len(Seq::<char>::empty()));
}

// ---------------------------------------------------------------------
// Executable helpers
// ---------------------------------------------------------------------

/// Append one char to a `String` (`String::push`).
#[verifier::external_body]
pub(crate) fn push_char(s: &mut String, c: char)
    ensures
        final(s)@ == old(s)@.push(c),
{
    s.push(c)
}

/// Printable ASCII other than the quotes and the backslash: the chars
/// that `Debug` writes as they are.
pub open spec fn plain_ascii(s: Seq<char>) -> bool {
    forall|i: int|
        0 <= i < s.len() ==> 0x20 <= (#[trigger] s[i]) as u32 <= 0x7e && s[i] != '"' && s[i] != '\\' && s[i] != '\''
}

/// `s` occurs in `pre` followed by `s` between double quotes.
pub proof fn lemma_contains_quoted(pre: Seq<char>, s: Seq<char>)
    ensures
        contains(pre + "\""@ + s + "\""@, s),
{
    reveal_strlit("\"");
    let t = pre + "\""@ + s + "\""@;
    let k = pre.len() as int + 1;
    assert(t.subrange(k, k + s.len() as int) =~= s);
    assert(occurs_at(t, s, k));
}

/// Render `s` as `format!("{:?}", s)` does: `str`'s `Debug`, which
/// writes the text between double quotes, escaping what needs it; a text
/// of printable ASCII with no quote or backslash is written as it is.
#[verifier::external_body]
pub(crate) fn debug_quote(s: &str) -> (r: String)
    ensures
        r@ == debug_quoted(s@),
        plain_ascii(s@) ==> r@ == "\""@ + s@ + "\""@,
{
    format!("{s:?}")
}

/// The chars of `s`.
pub fn chars_of(s: &str) -> (v: Vec<char>)
    ensures
        v@ == s@,
{
    let mut v: Vec<char> = Vec::new();
    for c in it: s.chars()
        invariant
            v@ == it.seq().take(it.index() as int),
    {
        v.push(c);
    }
    v
}

/// A `String` holding exactly `v`.
pub fn string_of(v: &Vec<char>) -> (s: String)
    ensures
        s@ == v@,
{
    let mut s = String::new();
    let mut i: usize = 0;
    while i < v.len()
        invariant
            i <= v.len(),
            s@ == v@.take(i as int),
        decreases v.len() - i,
    {
        push_char(&mut s, v[i]);
        assert(v@.take(i + 1) =~= v@.take(i as int).push(v@[i as int]));
        i = i + 1;
    }
    assert(v@.take(v.len() as int) =~= v@);
    s
}

/// An owned copy of `s`.
pub fn owned(s: &str) -> (r: String)
    ensures
        r@ == s@,
{
    s.to_owned()
}

/// `a` followed by `b`.
pub fn cat(a: &str, b: &str) -> (r: String)
    ensures
        r@ == a@ + b@,
{
    let mut r = a.to_owned();
    r.append(b);
    r
}

/// `a`, `b` and `c` in a row.
pub fn cat3(a: &str, b: &str, c: &str) -> (r: String)
    ensures
        r@ == a@ + b@ + c@,
{
    let mut r = a.to_owned();
    r.append(b);
    r.append(c);
    r
}

/// `char::to_ascii_lowercase`.
pub fn lower(c: char) -> (r: char)
    ensures
        r == lower_char(c),
{
    if 'A' <= c && c <= 'Z' {
        ((c as u8) + 32) as char
    } else {
        c
    }
}

/// ASCII-lowercase every char of `v`.
pub fn lower_chars(v: &Vec<char>) -> (r: Vec<char>)
    ensures
        r@ == ascii_lower(v@),
{
    let mut r: Vec<char> = Vec::new();
    let mut i: usize = 0;
    while i < v.len()
        invariant
            i <= v.len(),
            r@ == ascii_lower(v@.take(i as int)),
        decreases v.len() - i,
    {
        let c = lower(v[i]);
        r.push(c);
        assert(ascii_lower(v@.take(i + 1)) =~= ascii_lower(v@.take(i as int)).push(c));
        i = i + 1;
    }
    assert(v@.take(v.len() as int) =~= v@);
    r
}

/// `str::to_ascii_lowercase`, as chars.
pub fn lower_str(s: &str) -> (r: Vec<char>)
    ensures
        r@ == ascii_lower(s@),
{
    let v = chars_of(s);
    lower_chars(&v)
}

/// `char::is_whitespace`.
pub fn ws(c: char) -> (r: bool)
    ensures
        r == is_ws(c),
{
    c == '\t' || c == '\n' || c == '\x0B' || c == '\x0C' || c == '\r' || c == ' '
        || c == '\u{85}' || c == '\u{A0}' || c == '\u{1680}' || ('\u{2000}' <= c && c
        <= '\u{200A}') || c == '\u{2028}' || c == '\u{2029}' || c == '\u{202F}' || c
        == '\u{205F}' || c == '\u{3000}'
}

/// The bounds `[a, b)` of `str::trim` on `v`.
fn trim_bounds(v: &Vec<char>) -> (r: (usize, usize))
    ensures
        r.0 <= r.1 <= v@.len(),
        trim(v@) == v@.subrange(r.0 as int, r.1 as int),
{
    let n = v.len();
    let mut a: usize = 0;
    while a < n && ws(v[a])
        invariant
            a <= n == v@.len(),
            first_non_ws_from(v@, a as int) == first_non_ws_from(v@, 0),
            forall|k: int| 0 <= k < a ==> is_ws(#[trigger] v@[k]),
        decreases n - a,
    {
        a = a + 1;
    }
    let mut b: usize = n;
    while b > a && ws(v[b - 1])
        invariant
            a <= b <= n == v@.len(),
            last_non_ws_before(v@, b as int) == last_non_ws_before(v@, n as int),
        decreases b,
    {
        b = b - 1;
    }
    proof {
        assert(first_non_ws_from(v@, a as int) == a);
        if a == b {
            lemma_last_before_le(v@, b as int);
            assert(v@.subrange(a as int, b as int) =~= Seq::<char>::empty());
        } else {
            assert(last_non_ws_before(v@, b as int) == b);
        }
    }
    (a, b)
}

/// `str::trim`, as chars.
pub fn trim_chars(v: &Vec<char>) -> (r: Vec<char>)
    ensures
        r@ == trim(v@),
{
    let (a, b) = trim_bounds(v);
    let mut r: Vec<char> = Vec::new();
    let mut i: usize = a;
    while i < b
        invariant
            a <= i <= b <= v@.len(),
            r@ == v@.subrange(a as int, i as int),
        decreases b - i,
    {
        r.push(v[i]);
        assert(v@.subrange(a as int, i + 1) =~= v@.subrange(a as int, i as int).push(v@[i as int]));
        i = i + 1;
    }
    r
}

/// `str::trim`: the trimmed part of `s` itself.
pub fn trim_slice(s: &str) -> (r: &str)
    ensures
        r@ == trim(s@),
{
    let v = chars_of(s);
    let (a, b) = trim_bounds(&v);
    s.substring_char(a, b)
}

/// The last non-whitespace position before `j` never exceeds `j`.
proof fn lemma_last_before_le(s: Seq<char>, j: int)
    requires
        0 <= j,
    ensures
        last_non_ws_before(s, j) <= j,
    decreases j,
{
    if j > 0 && j <= s.len() {
        lemma_last_before_le(s, j - 1);
    }
}

/// `str::trim`, as chars.
pub fn trim_str(s: &str) -> (r: Vec<char>)
    ensures
        r@ == trim(s@),
{
    let v = chars_of(s);
    trim_chars(&v)
}

/// `a@ == b@` on char vectors.
pub fn eq_chars(a: &Vec<char>, b: &Vec<char>) -> (r: bool)
    ensures
        r == (a@ == b@),
{
    if a.len() != b.len() {
        return false;
    }
    let mut i: usize = 0;
    while i < a.len()
        invariant
            a.len() == b.len(),
            i <= a.len(),
            forall|k: int| 0 <= k < i ==> a@[k] == b@[k],
        decreases a.len() - i,
    {
        if a[i] != b[i] {
            return false;
        }
        i = i + 1;
    }
    assert(a@ =~= b@);
    true
}

/// `v@ == s@` for a char vector and a string slice.
pub fn eq_str(v: &Vec<char>, s: &str) -> (r: bool)
    ensures
        r == (v@ == s@),
{
    let w = chars_of(s);
    eq_chars(v, &w)
}

/// `t` occurs in `s` at `i`.
pub fn occurs_at_exec(s: &Vec<char>, t: &Vec<char>, i: usize) -> (r: bool)
    ensures
        r == occurs_at(s@, t@, i as int),
{
    if i > s.len() || t.len() > s.len() - i {
        return false;
    }
    let mut k: usize = 0;
    while k < t.len()
        invariant
            i + t.len() <= s.len(),
            k <= t.len(),
            forall|j: int| 0 <= j < k ==> s@[i + j] == t@[j],
        decreases t.len() - k,
    {
        if s[i + k] != t[k] {
            assert(s@.subrange(i as int, i + t.len())[k as int] != t@[k as int]);
            return false;
        }
        k = k + 1;
    }
    assert(s@.subrange(i as int, i + t.len()) =~= t@);
    true
}

/// `str::contains`, as chars.
pub fn contains_chars(s: &Vec<char>, t: &Vec<char>) -> (r: bool)
    ensures
        r == contains(s@, t@),
{
    if t.len() > s.len() {
        assert forall|i: int| !occurs_at(s@, t@, i) by {}
        return false;
    }
    let last = s.len() - t.len();
    let mut i: usize = 0;
    loop
        invariant
            t.len() <= s.len(),
            last == s.len() - t.len(),
            i <= last,
            forall|j: int| 0 <= j < i ==> !#[trigger] occurs_at(s@, t@, j),
        ensures
            forall|j: int| 0 <= j <= last ==> !#[trigger] occurs_at(s@, t@, j),
        decreases last - i,
    {
        if occurs_at_exec(s, t, i) {
            return true;
        }
        if i == last {
            break;
        }
        i = i + 1;
    }
    assert forall|j: int| !#[trigger] occurs_at(s@, t@, j) by {
        if 0 <= j <= last {
        }
    }
    false
}

/// `str::contains` with a literal pattern.
pub fn contains_str(s: &Vec<char>, t: &str) -> (r: bool)
    ensures
        r == contains(s@, t@),
{
    let w = chars_of(t);
    contains_chars(s, &w)
}

/// `str::starts_with`, as chars.
pub fn starts_with_chars(s: &Vec<char>, t: &Vec<char>) -> (r: bool)
    ensures
        r == starts_with(s@, t@),
{
    let r = occurs_at_exec(s, t, 0);
    r
}

/// `str::ends_with`, as chars.
pub fn ends_with_chars(s: &Vec<char>, t: &Vec<char>) -> (r: bool)
    ensures
        r == ends_with(s@, t@),
{
    if t.len() > s.len() {
        return false;
    }
    let r = occurs_at_exec(s, t, s.len() - t.len());
    r
}

/// `char::len_utf8`.
pub fn width(c: char) -> (w: usize)
    ensures
        w == char_width(c),
{
    let u = c as u32;
    if u < 0x80 {
        1
    } else if u < 0x800 {
        2
    } else if u < 0x10000 {
        3
    } else {
        4
    }
}

/// Decimal rendering of `n` (`n.to_string()`).
pub fn decimal_string(n: u64) -> (s: String)
    ensures
        s@ == decimal(n as nat),
    decreases n,
{
    if n < 10 {
        let mut s = String::new();
        push_char(&mut s, ((n as u8) + 48) as char);
        assert(s@ =~= seq![digit_char(n as nat)]);
        s
    } else {
        let mut s = decimal_string(n / 10);
        push_char(&mut s, (((n % 10) as u8) + 48) as char);
        s
    }
}

} // verus!

verus! {

/// Folding ASCII case twice is the same as once.
pub proof fn lemma_lower_idempotent(s: Seq<char>)
    ensures
        ascii_lower(ascii_lower(s)) == ascii_lower(s),
{
    assert forall|i: int| 0 <= i < s.len() implies #[trigger] lower_char(lower_char(s[i]))
        == lower_char(s[i]) by {
        let c = s[i];
        if 'A' <= c && c <= 'Z' {
            assert(65 <= (c as u32) <= 90);
        }
    }
    assert(ascii_lower(ascii_lower(s)) =~= ascii_lower(s));
}

/// A string without ASCII capitals is its own lowercase form.
pub proof fn lemma_lower_no_caps(s: Seq<char>)
    requires
        forall|i: int| 0 <= i < s.len() ==> !('A' <= #[trigger] s[i] && s[i] <= 'Z'),
    ensures
        ascii_lower(s) == s,
{
    assert(ascii_lower(s) =~= s);
}

} // verus!

verus! {

/// The chars of `s` whose UTF-8 encoding starts before byte `max`.
pub open spec fn prefix_before(s: Seq<char>, max: int) -> Seq<char>
    decreases s.len(),
{
    if s.len() == 0 || max <= 0 {
        Seq::empty()
    } else {
        seq![s[0]] + prefix_before(s.drop_first(), max - char_width(s[0]))
    }
}

/// Byte length of a prefix plus the rest.
pub proof fn lemma_utf8_len_split(s: Seq<char>, i: int)
    requires
        0 <= i <= s.len(),
    ensures
        utf8_len(s) == utf8_len(s.take(i)) + utf8_len(s.skip(i)),
{
    assert(s =~= s.take(i) + s.skip(i));
    lemma_utf8_len_concat(s.take(i), s.skip(i));
}

} // verus!
