//! Integrity check of downloaded files against published `.sha256`
//! sidecars.
use vstd::prelude::*;

use crate::hf::error::HfError;
use crate::text::{
    ascii_lower, cat, cat3, chars_of, ends_with, ends_with_chars, eq_chars, is_ws, lower_chars,
    push_char, string_of, ws,
};

verus! {

/// SHA-256 digest of `data`, as computed by the `sha2` crate.
pub uninterp spec fn sha256_of(data: Seq<u8>) -> Seq<u8>;

/// SHA-256 digest of `data` (`sha2::Sha256::digest`); the digest is
/// 32 bytes long. Nothing else about the hash function is stated.
#[verifier::external_body]
fn sha256(data: &[u8]) -> (d: Vec<u8>)
    ensures
        d@ == sha256_of(data@),
        d@.len() == 32,
{
    <sha2::Sha256 as sha2::Digest>::digest(data).to_vec()
}

/// Lowercase hex digit of `d < 16`.
pub open spec fn hex_digit(d: u8) -> char {
    if d < 10 {
        ((d + 48) as u8) as char
    } else {
        ((d + 87) as u8) as char
    }
}

/// Lowercase hex rendering of bytes, two digits each (`{:02x}`).
pub open spec fn hex_of(b: Seq<u8>) -> Seq<char>
    decreases b.len(),
{
    if b.len() == 0 {
        Seq::empty()
    } else {
        hex_of(b.drop_last()).push(hex_digit(b.last() / 16)).push(hex_digit(b.last() % 16))
    }
}

fn hex_char(d: u8) -> (c: char)
    requires
        d < 16,
    ensures
        c == hex_digit(d),
{
    if d < 10 {
        (d + 48) as char
    } else {
        (d + 87) as char
    }
}

/// Lowercase hex rendering of `b`.
pub fn to_hex(b: &Vec<u8>) -> (s: Vec<char>)
    ensures
        s@ == hex_of(b@),
{
    let mut s: Vec<char> = Vec::new();
    let mut i: usize = 0;
    while i < b.len()
        invariant
            i <= b.len(),
            s@ == hex_of(b@.take(i as int)),
        decreases b.len() - i,
    {
        let x = b[i];
        s.push(hex_char(x / 16));
        s.push(hex_char(x % 16));
        assert(b@.take(i + 1).drop_last() =~= b@.take(i as int));
        i = i + 1;
    }
    assert(b@.take(b.len() as int) =~= b@);
    s
}

/// `name` without trailing repeats of `.sha256` (`trim_end_matches`).
pub open spec fn strip_sha_suffix(name: Seq<char>) -> Seq<char>
    decreases name.len(),
{
    if ends_with(name, ".sha256"@) && name.len() >= 7 {
        strip_sha_suffix(name.subrange(0, name.len() - 7))
    } else {
        name
    }
}

/// The file a sidecar named `name` vouches for, when `name` ends with
/// `.sha256`.
pub open spec fn sidecar_target_of(name: Seq<char>) -> Option<Seq<char>> {
    if ends_with(name, ".sha256"@) {
        Some(strip_sha_suffix(name))
    } else {
        None
    }
}

/// The file a sidecar vouches for.
pub fn sidecar_target(name: &str) -> (r: Option<String>)
    ensures
        crate::asr::opt_text(r) == sidecar_target_of(name@),
{
    let v = chars_of(name);
    let suffix = chars_of(".sha256");
    if !ends_with_chars(&v, &suffix) {
        return None;
    }
    let mut n: usize = v.len();
    assert(v@.take(n as int) =~= v@);
    loop
        invariant
            n <= v.len(),
            suffix@ == ".sha256"@,
            v@ == name@,
            ends_with(v@, ".sha256"@),
            strip_sha_suffix(v@.take(n as int)) == strip_sha_suffix(v@),
        decreases n,
    {
        let mut w: Vec<char> = Vec::new();
        let mut i: usize = 0;
        while i < n
            invariant
                n <= v.len(),
                i <= n,
                w@ == v@.take(i as int),
            decreases n - i,
        {
            w.push(v[i]);
            assert(v@.take(i + 1) =~= v@.take(i as int).push(v@[i as int]));
            i = i + 1;
        }
        if n >= 7 && ends_with_chars(&w, &suffix) {
            assert(v@.take(n as int).subrange(0, n - 7) =~= v@.take(n - 7));
            n = n - 7;
        } else {
            assert(strip_sha_suffix(w@) == w@);
            assert(sidecar_target_of(name@) == Some(strip_sha_suffix(v@)));
            return Some(string_of(&w));
        }
    }
}

/// The first whitespace-separated word of `s` (empty when there is
/// none), as `split_whitespace().next().unwrap_or("")` yields it.
pub open spec fn first_word(s: Seq<char>) -> Seq<char> {
    let a = crate::text::first_non_ws_from(s, 0);
    s.subrange(a, word_end(s, a))
}

/// One past the last char of the word starting at `a`.
pub open spec fn word_end(s: Seq<char>, a: int) -> int
    decreases s.len() - a,
{
    if a < 0 || a >= s.len() || is_ws(s[a]) {
        if a < 0 { 0 } else if a > s.len() { s.len() as int } else { a }
    } else {
        word_end(s, a + 1)
    }
}

/// The first whitespace-separated word of `v`.
pub fn first_word_of(v: &Vec<char>) -> (r: Vec<char>)
    ensures
        r@ == first_word(v@),
{
    let n = v.len();
    let mut a: usize = 0;
    while a < n && ws(v[a])
        invariant
            a <= n == v@.len(),
            crate::text::first_non_ws_from(v@, a as int) == crate::text::first_non_ws_from(v@, 0),
        decreases n - a,
    {
        a = a + 1;
    }
    let mut b: usize = a;
    let mut out: Vec<char> = Vec::new();
    while b < n && !ws(v[b])
        invariant
            a <= b <= n == v@.len(),
            crate::text::first_non_ws_from(v@, 0) == a,
            word_end(v@, a as int) == word_end(v@, b as int),
            out@ == v@.subrange(a as int, b as int),
        decreases n - b,
    {
        out.push(v[b]);
        assert(v@.subrange(a as int, b + 1) =~= v@.subrange(a as int, b as int).push(v@[b as int]));
        b = b + 1;
    }
    out
}

/// The message of a digest mismatch.
pub open spec fn mismatch_message(target: Seq<char>, expected: Seq<char>, actual: Seq<char>) -> Seq<char> {
    "sha256 mismatch for "@ + target + ": expected "@ + expected + ", got "@ + actual
}

/// Check `data` (the bytes of file `target_name` at `target_path`)
/// against the sidecar text: its first word, lowercased, must equal
/// the lowercase hex SHA-256 of `data`.
pub fn check_sidecar(target_path: &str, target_name: &str, sidecar_text: &str, data: &[u8]) -> (r: Result<(), HfError>)
    ensures
        ({
            let expected = ascii_lower(first_word(sidecar_text@));
            let actual = hex_of(sha256_of(data@));
            &&& expected == actual ==> r is Ok
            &&& expected != actual ==> (r matches Err(HfError::Protocol { url, message }) && url@
                == target_path@ && message@ == mismatch_message(target_name@, expected, actual))
        }),
{
    let text = chars_of(sidecar_text);
    let word = first_word_of(&text);
    let expected = lower_chars(&word);
    let digest = sha256(data);
    let actual = to_hex(&digest);
    if eq_chars(&expected, &actual) {
        Ok(())
    } else {
        let e = string_of(&expected);
        let a = string_of(&actual);
        let m1 = cat3("sha256 mismatch for ", target_name, ": expected ");
        let m2 = cat3(m1.as_str(), e.as_str(), ", got ");
        let message = cat(m2.as_str(), a.as_str());
        Err(HfError::Protocol { url: crate::text::owned(target_path), message })
    }
}

} // verus!
