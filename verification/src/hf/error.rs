//! Errors raised inside the Hugging Face source and their mapping onto
//! [`AsrError`].
use vstd::prelude::*;

use crate::asr::{AsrError, IoKind};
use crate::text::{
    cat, cat3, chars_of, char_width, decimal, decimal_string, lemma_utf8_len_push,
    lemma_utf8_len_split, owned, prefix_before, push_char, string_of, utf8_len, width,
};

verus! {

/// All errors that may occur inside the Hugging Face source. Underlying
/// errors of other layers are carried as their rendered text.
#[derive(Debug, Clone, PartialEq, Eq)]
pub enum HfError {
    /// HTTP transport failure.
    Transport { url: String, message: String, source: String },
    /// The remote returned a non-success status code.
    HttpStatus { url: String, status: u16, body: String },
    /// Local file I/O failure.
    Io { path: String, message: String, kind: IoKind },
    /// JSON parsing failure.
    Json { context: String, source: String },
    /// The response shape did not match what we expected.
    Protocol { url: String, message: String },
    /// Transient retry policy was exhausted without success.
    RetriesExhausted { url: String, attempts: u32, last_error: String },
    /// Caller-supplied input was rejected before any I/O.
    InvalidInput(String),
    /// The advisory lock could not be acquired.
    LockUnavailable { path: String, attempts: u32, message: String },
}

/// `s` cut to the chars that start before byte `max`, followed by an
/// ellipsis, when its UTF-8 form is longer than `max` bytes.
pub open spec fn truncated(s: Seq<char>, max: nat) -> Seq<char> {
    if utf8_len(s) <= max {
        s
    } else {
        prefix_before(s, max as int).push('…')
    }
}

proof fn lemma_prefix_before_bound(s: Seq<char>, max: int)
    ensures
        max <= 0 ==> utf8_len(prefix_before(s, max)) == 0,
        max > 0 ==> utf8_len(prefix_before(s, max)) <= max + 3,
    decreases s.len(),
{
    if s.len() > 0 && max > 0 {
        let rest = prefix_before(s.drop_first(), max - char_width(s[0]));
        lemma_prefix_before_bound(s.drop_first(), max - char_width(s[0]));
        assert((seq![s[0]] + rest).drop_first() =~= rest);
        assert((seq![s[0]] + rest)[0] == s[0]);
    }
}

/// A truncated text is never longer than the cap plus six bytes: the
/// last kept char starts before the cap, so it ends at most three bytes
/// past it, and the ellipsis takes three. What it keeps is a prefix of the text.
pub proof fn lemma_truncated_is_short_prefix(s: Seq<char>, max: nat)
    ensures
        utf8_len(truncated(s, max)) <= max + 6,
        utf8_len(s) <= max ==> truncated(s, max) == s,
        utf8_len(s) > max ==> truncated(s, max).last() == '…' && s.take(truncated(s, max).len() - 1)
            == truncated(s, max).drop_last(),
{
    lemma_prefix_before_bound(s, max as int);
    if utf8_len(s) > max {
        let p = prefix_before(s, max as int);
        lemma_utf8_len_push(p, '…');
        assert(char_width('…') == 3) by {
            assert(('…' as u32) == 0x2026);
        }
        lemma_prefix_before_is_prefix(s, max as int);
        assert(p.push('…').drop_last() =~= p);
    }
}

proof fn lemma_prefix_before_is_prefix(s: Seq<char>, max: int)
    ensures
        prefix_before(s, max).len() <= s.len(),
        s.take(prefix_before(s, max).len() as int) == prefix_before(s, max),
    decreases s.len(),
{
    if s.len() > 0 && max > 0 {
        let t = s.drop_first();
        let rest = prefix_before(t, max - char_width(s[0]));
        lemma_prefix_before_is_prefix(t, max - char_width(s[0]));
        assert(s.take(rest.len() + 1 as int) =~= seq![s[0]] + t.take(rest.len() as int));
    } else {
        assert(s.take(0) =~= Seq::<char>::empty());
    }
}

/// Cut `s` to at most `max` bytes on a char boundary, marking the cut
/// with `…`.
pub fn truncate(s: &str, max: usize) -> (r: String)
    ensures
        r@ == truncated(s@, max as nat),
{
    let v = chars_of(s);
    let mut i: usize = 0;
    let mut off: u128 = 0;
    while i < v.len() && off <= max as u128
        invariant
            i <= v.len(),
            off == utf8_len(v@.take(i as int)),
            off <= max as u128 + 4,
        decreases v.len() - i,
    {
        proof {
            lemma_utf8_len_push(v@.take(i as int), v@[i as int]);
            assert(v@.take(i + 1) =~= v@.take(i as int).push(v@[i as int]));
        }
        off = off + width(v[i]) as u128;
        i = i + 1;
    }
    proof {
        lemma_utf8_len_split(v@, i as int);
    }
    if off <= max as u128 {
        assert(v@.take(i as int) =~= v@);
        return owned(s);
    }
    let mut out = String::new();
    let mut k: usize = 0;
    assert(v@.skip(0) =~= v@);
    assert(v@.take(0) + prefix_before(v@, max as int) =~= prefix_before(v@, max as int));
    let mut at: u128 = 0;
    while k < v.len() && at < max as u128
        invariant
            k <= v.len(),
            at == utf8_len(v@.take(k as int)),
            at <= max as u128 + 4,
            out@ == v@.take(k as int),
            prefix_before(v@, max as int) == v@.take(k as int) + prefix_before(
                v@.skip(k as int),
                max - at,
            ),
        decreases v.len() - k,
    {
        proof {
            lemma_utf8_len_push(v@.take(k as int), v@[k as int]);
            assert(v@.take(k + 1) =~= v@.take(k as int).push(v@[k as int]));
            assert(v@.skip(k as int).drop_first() =~= v@.skip(k + 1));
            assert(v@.take(k as int) + seq![v@[k as int]] =~= v@.take(k + 1));
        }
        push_char(&mut out, v[k]);
        at = at + width(v[k]) as u128;
        k = k + 1;
    }
    proof {
        assert(v@.take(k as int) + Seq::<char>::empty() =~= v@.take(k as int));
    }
    push_char(&mut out, '…');
    out
}

/// `a` is the `AsrError` that `e` becomes at the public boundary.
pub open spec fn maps_to(e: HfError, a: AsrError) -> bool {
    match e {
        HfError::Transport { url, message, source } => a matches AsrError::Network {
            url: u,
            message: m,
            source: Some(src),
        } && u@ == url@ && m@ == message@ && src@ == source@,
        HfError::HttpStatus { url, status, body } => a matches AsrError::Network {
            url: u,
            message: m,
            source: None,
        } && u@ == url@ && m@ == "HTTP "@ + decimal(status as nat) + ": "@ + truncated(
            body@,
            200,
        ),
        HfError::Io { path, message, kind } => a matches AsrError::AudioIo {
            path: p,
            kind: k,
            message: m,
        } && p@ == path@ && k == kind && m@ == message@,
        HfError::Json { context, source } => a matches AsrError::InvalidInput(m) && m@
            == "JSON at "@ + context@ + ": "@ + source@,
        HfError::Protocol { url, message } => a matches AsrError::InvalidInput(m) && m@ == url@
            + ": "@ + message@,
        HfError::RetriesExhausted { url, attempts, last_error } => a matches AsrError::Network {
            url: u,
            message: m,
            source: None,
        } && u@ == url@ && m@ == "retries exhausted after "@ + decimal(attempts as nat)
            + " attempt(s): "@ + last_error@,
        HfError::InvalidInput(msg) => a matches AsrError::InvalidInput(m) && m@ == msg@,
        HfError::LockUnavailable { path, attempts, message } => a matches AsrError::LockUnavailable {
            path: p,
            attempts: n,
            message: m,
        } && p@ == path@ && n == attempts && m@ == "try_lock_exclusive returned WouldBlock "@
            + decimal(attempts as nat) + " times: "@ + message@,
    }
}

/// The text of an error, as its `Display` renders it.
pub open spec fn hf_message(e: HfError) -> Seq<char> {
    match e {
        HfError::Transport { url, message, .. } => "transport error fetching "@ + url@ + ": "@ + message@,
        HfError::HttpStatus { url, status, body } => "HTTP "@ + decimal(status as nat) + " at "@ + url@ + ": "@
            + body@,
        HfError::Io { path, message, .. } => "I/O error at "@ + path@ + ": "@ + message@,
        HfError::Json { context, source } => "JSON parse error at "@ + context@ + ": "@ + source@,
        HfError::Protocol { url, message } => "unexpected response shape at "@ + url@ + ": "@ + message@,
        HfError::RetriesExhausted { url, attempts, last_error } => "retries exhausted after "@ + decimal(
            attempts as nat,
        ) + " attempt(s) at "@ + url@ + ": "@ + last_error@,
        HfError::InvalidInput(m) => "invalid input: "@ + m@,
        HfError::LockUnavailable { path, attempts, message } => "could not acquire lock at "@ + path@ + " after "@
            + decimal(attempts as nat) + " attempt(s): "@ + message@,
    }
}

impl HfError {
    /// The error's text (see [`hf_message`]).
    pub fn message(&self) -> (r: String)
        ensures
            r@ == hf_message(*self),
    {
        match self {
            HfError::Transport { url, message, .. } => cat(
                cat3("transport error fetching ", url.as_str(), ": ").as_str(),
                message.as_str(),
            ),
            HfError::HttpStatus { url, status, body } => {
                let n = decimal_string(*status as u64);
                let head = cat3(cat3("HTTP ", n.as_str(), " at ").as_str(), url.as_str(), ": ");
                cat(head.as_str(), body.as_str())
            },
            HfError::Io { path, message, .. } => cat(
                cat3("I/O error at ", path.as_str(), ": ").as_str(),
                message.as_str(),
            ),
            HfError::Json { context, source } => cat(
                cat3("JSON parse error at ", context.as_str(), ": ").as_str(),
                source.as_str(),
            ),
            HfError::Protocol { url, message } => cat(
                cat3("unexpected response shape at ", url.as_str(), ": ").as_str(),
                message.as_str(),
            ),
            HfError::RetriesExhausted { url, attempts, last_error } => {
                let n = decimal_string(*attempts as u64);
                let head = cat3(cat3("retries exhausted after ", n.as_str(), " attempt(s) at ").as_str(), url.as_str(), ": ");
                cat(head.as_str(), last_error.as_str())
            },
            HfError::InvalidInput(m) => cat("invalid input: ", m.as_str()),
            HfError::LockUnavailable { path, attempts, message } => {
                let n = decimal_string(*attempts as u64);
                let head = cat3(cat3("could not acquire lock at ", path.as_str(), " after ").as_str(), n.as_str(), " attempt(s): ");
                cat(head.as_str(), message.as_str())
            },
        }
    }

    /// Convert to the public [`AsrError`] type.
    pub fn into_asr(self) -> (a: AsrError)
        ensures
            maps_to(self, a),
    {
        match self {
            HfError::Transport { url, message, source } => AsrError::network(
                url,
                message,
                Some(source),
            ),
            HfError::HttpStatus { url, status, body } => {
                let t = truncate(body.as_str(), 200);
                let n = decimal_string(status as u64);
                let head = cat3("HTTP ", n.as_str(), ": ");
                AsrError::network(url, cat(head.as_str(), t.as_str()), None)
            },
            HfError::Io { path, message, kind } => AsrError::audio_io(path, kind, message),
            HfError::Json { context, source } => {
                let head = cat3("JSON at ", context.as_str(), ": ");
                AsrError::InvalidInput(cat(head.as_str(), source.as_str()))
            },
            HfError::Protocol { url, message } => AsrError::InvalidInput(
                cat3(url.as_str(), ": ", message.as_str()),
            ),
            HfError::RetriesExhausted { url, attempts, last_error } => {
                let n = decimal_string(attempts as u64);
                let head = cat3("retries exhausted after ", n.as_str(), " attempt(s): ");
                AsrError::network(url, cat(head.as_str(), last_error.as_str()), None)
            },
            HfError::InvalidInput(msg) => AsrError::InvalidInput(msg),
            HfError::LockUnavailable { path, attempts, message } => {
                let n = decimal_string(attempts as u64);
                let head = cat3("try_lock_exclusive returned WouldBlock ", n.as_str(), " times: ");
                AsrError::lock_unavailable(path, attempts, cat(head.as_str(), message.as_str()))
            },
        }
    }
}


} // verus!
