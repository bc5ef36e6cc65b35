//! Endpoint configuration of the Hub HTTP client: the fluent builder,
//! the settings it resolves to, and absolute request URLs.
use vstd::prelude::*;

use crate::asr::opt_text;
use crate::hf::error::HfError;
use crate::text::{cat, cat3, chars_of, decimal, owned, starts_with, starts_with_chars, string_of};

verus! {

/// `s` without its trailing `/` chars (`trim_end_matches('/')`).
pub open spec fn trim_slashes(s: Seq<char>) -> Seq<char>
    decreases s.len(),
{
    if s.len() > 0 && s.last() == '/' {
        trim_slashes(s.drop_last())
    } else {
        s
    }
}

/// `s.trim_end_matches('/')`.
pub fn trim_end_slashes(s: &str) -> (r: String)
    ensures
        r@ == trim_slashes(s@),
{
    let v = chars_of(s);
    let mut n: usize = v.len();
    assert(v@.take(n as int) =~= v@);
    while n > 0 && v[n - 1] == '/'
        invariant
            n <= v.len(),
            trim_slashes(v@.take(n as int)) == trim_slashes(v@),
        decreases n,
    {
        assert(v@.take(n as int).drop_last() =~= v@.take(n - 1));
        n = n - 1;
    }
    assert(trim_slashes(v@.take(n as int)) == v@.take(n as int));
    let mut out: Vec<char> = Vec::new();
    let mut i: usize = 0;
    while i < n
        invariant
            n <= v.len(),
            i <= n,
            out@ == v@.take(i as int),
        decreases n - i,
    {
        out.push(v[i]);
        assert(v@.take(i + 1) =~= v@.take(i as int).push(v@[i as int]));
        i = i + 1;
    }
    string_of(&out)
}

/// Default Hub endpoint.
pub open spec fn default_base_url() -> Seq<char> {
    "https://huggingface.co"@
}

/// Default `User-Agent`.
pub open spec fn default_user_agent() -> Seq<char> {
    "voxora-hf/0.4.0 (+https://github.com/airvzxf/voxora)"@
}

/// Fluent builder of the Hub client settings.
#[derive(Debug, Clone)]
pub struct HfClientBuilder {
    base_url: String,
    token: Option<String>,
    timeout_secs: u64,
    user_agent: String,
}

/// Resolved settings of the Hub client.
#[derive(Debug, Clone, PartialEq, Eq)]
pub struct HfClientSettings {
    /// Base URL without trailing slashes.
    pub base_url: String,
    /// Bearer token, if any.
    pub token: Option<String>,
    /// Per-request timeout in seconds.
    pub timeout_secs: u64,
    /// `User-Agent` header.
    pub user_agent: String,
}

impl HfClientBuilder {
    /// Configured base URL.
    pub closed spec fn base_url_spec(&self) -> Seq<char> {
        self.base_url@
    }

    /// Configured token.
    pub closed spec fn token_spec(&self) -> Option<Seq<char>> {
        opt_text(self.token)
    }

    /// Configured timeout.
    pub closed spec fn timeout_spec(&self) -> u64 {
        self.timeout_secs
    }

    /// Configured `User-Agent`.
    pub closed spec fn user_agent_spec(&self) -> Seq<char> {
        self.user_agent@
    }

    /// Defaults: the public Hub, no token, 600 s, the crate's agent.
    pub fn new() -> (b: Self)
        ensures
            b.base_url_spec() == default_base_url(),
            b.token_spec() is None,
            b.timeout_spec() == 600,
            b.user_agent_spec() == default_user_agent(),
    {
        HfClientBuilder {
            base_url: owned("https://huggingface.co"),
            token: None,
            timeout_secs: 600,
            user_agent: owned("voxora-hf/0.4.0 (+https://github.com/airvzxf/voxora)"),
        }
    }

    /// Override the base URL.
    pub fn base_url(self, url: &str) -> (b: Self)
        ensures
            b.base_url_spec() == url@,
            b.token_spec() == self.token_spec(),
            b.timeout_spec() == self.timeout_spec(),
            b.user_agent_spec() == self.user_agent_spec(),
    {
        let mut b = self;
        b.base_url = owned(url);
        b
    }

    /// Override the bearer token.
    pub fn token(self, token: Option<String>) -> (b: Self)
        ensures
            b.base_url_spec() == self.base_url_spec(),
            b.token_spec() == opt_text(token),
            b.timeout_spec() == self.timeout_spec(),
            b.user_agent_spec() == self.user_agent_spec(),
    {
        let mut b = self;
        b.token = token;
        b
    }

    /// Per-request timeout in seconds.
    pub fn timeout(self, secs: u64) -> (b: Self)
        ensures
            b.base_url_spec() == self.base_url_spec(),
            b.token_spec() == self.token_spec(),
            b.timeout_spec() == secs,
            b.user_agent_spec() == self.user_agent_spec(),
    {
        let mut b = self;
        b.timeout_secs = secs;
        b
    }

    /// Override the `User-Agent` header.
    pub fn user_agent(self, ua: &str) -> (b: Self)
        ensures
            b.base_url_spec() == self.base_url_spec(),
            b.token_spec() == self.token_spec(),
            b.timeout_spec() == self.timeout_spec(),
            b.user_agent_spec() == ua@,
    {
        let mut b = self;
        b.user_agent = owned(ua);
        b
    }

    /// The settings the client is built with: the base URL loses its
    /// trailing slashes, everything else is kept.
    pub fn settings(self) -> (s: HfClientSettings)
        ensures
            s.base_url@ == trim_slashes(self.base_url_spec()),
            opt_text(s.token) == self.token_spec(),
            s.timeout_secs == self.timeout_spec(),
            s.user_agent@ == self.user_agent_spec(),
    {
        HfClientSettings {
            base_url: trim_end_slashes(self.base_url.as_str()),
            token: self.token,
            timeout_secs: self.timeout_secs,
            user_agent: self.user_agent,
        }
    }
}

/// The URL of `path` under `base_url`.
pub open spec fn absolute_url(base_url: Seq<char>, path: Seq<char>) -> Seq<char> {
    if starts_with(path, "/"@) {
        base_url + path
    } else {
        base_url + "/"@ + path
    }
}

/// Prepend the base URL to a request path.
pub fn absolute(base_url: &str, path: &str) -> (r: String)
    ensures
        r@ == absolute_url(base_url@, path@),
{
    let p = chars_of(path);
    let slash = chars_of("/");
    if starts_with_chars(&p, &slash) {
        cat(base_url, path)
    } else {
        cat3(base_url, "/", path)
    }
}

/// How many times a request is sent before a server error is final.
pub const MAX_ATTEMPTS: u32 = 3;

/// What to do with the answer to one attempt of a request.
#[derive(Debug, Clone, Copy, PartialEq, Eq)]
pub enum RetryVerdict {
    /// A success status: take the answer.
    Accept,
    /// A server error with attempts left: send the request again.
    Retry,
    /// Any other status, or a server error on the last attempt: stop
    /// with [`failure_error`].
    Fail,
}

/// A `2xx` status.
pub open spec fn is_success(status: u16) -> bool {
    200 <= status <= 299
}

/// A `5xx` status: the server's fault, worth another try.
pub open spec fn is_server_error(status: u16) -> bool {
    500 <= status <= 599
}

/// The verdict on attempt number `attempt` (counted from 1) answered
/// with `status`: a success is taken; a server error is retried until
/// [`MAX_ATTEMPTS`] attempts were made; anything else, a client error
/// among them, is final at once.
pub open spec fn verdict_of(attempt: u32, status: u16) -> RetryVerdict {
    if is_success(status) {
        RetryVerdict::Accept
    } else if is_server_error(status) && attempt < MAX_ATTEMPTS {
        RetryVerdict::Retry
    } else {
        RetryVerdict::Fail
    }
}

/// Decide what to do with the answer to an attempt (see [`verdict_of`]).
pub fn retry_verdict(attempt: u32, status: u16) -> (r: RetryVerdict)
    ensures
        r == verdict_of(attempt, status),
        200 <= status <= 299 ==> r == RetryVerdict::Accept,
        500 <= status <= 599 && attempt < 3 ==> r == RetryVerdict::Retry,
        r == RetryVerdict::Retry ==> 500 <= status <= 599 && attempt < 3,
{
    if 200 <= status && status <= 299 {
        RetryVerdict::Accept
    } else if 500 <= status && status <= 599 && attempt < MAX_ATTEMPTS {
        RetryVerdict::Retry
    } else {
        RetryVerdict::Fail
    }
}

/// The error a request to `url` stops with after attempt `attempt` was
/// answered with `status` and `body`: a server error (which is only
/// final on the last attempt) gives `RetriesExhausted` carrying the
/// last answer's text; any other status gives `HttpStatus`.
pub fn failure_error(url: &str, attempt: u32, status: u16, body: String) -> (r: HfError)
    ensures
        is_server_error(status) ==> (r matches HfError::RetriesExhausted { url: u, attempts, last_error }
            && u@ == url@ && attempts == attempt
            && last_error@ == "HTTP "@ + decimal(status as nat) + " at "@ + url@ + ": "@ + body@),
        !is_server_error(status) ==> (r matches HfError::HttpStatus { url: u, status: st, body: b } && u@ == url@
            && st == status && b == body),
{
    let last = HfError::HttpStatus { url: owned(url), status, body };
    if 500 <= status && status <= 599 {
        let last_error = last.message();
        HfError::RetriesExhausted { url: owned(url), attempts: attempt, last_error }
    } else {
        last
    }
}

/// The retry policy in full: a `2xx` answer is taken; every `5xx`
/// answer (500, 502, 503, 504, ...) is retried while fewer than three
/// attempts were made, and ends the request on the third; any other
/// answer (a `4xx` among them) ends it on the attempt that got it.
pub proof fn lemma_retry_policy(attempt: u32, status: u16)
    ensures
        200 <= status <= 299 ==> verdict_of(attempt, status) == RetryVerdict::Accept,
        500 <= status <= 599 && attempt < 3 ==> verdict_of(attempt, status) == RetryVerdict::Retry,
        500 <= status <= 599 && attempt >= 3 ==> verdict_of(attempt, status) == RetryVerdict::Fail,
        !(200 <= status <= 299) && !(500 <= status <= 599) ==> verdict_of(attempt, status) == RetryVerdict::Fail,
        MAX_ATTEMPTS == 3,
{
}

/// A request is sent at most [`MAX_ATTEMPTS`] times, and only a server
/// error is ever retried: a client error or a success ends it at once.
pub proof fn lemma_retries_are_bounded(attempt: u32, status: u16)
    ensures
        verdict_of(attempt, status) is Retry ==> attempt < MAX_ATTEMPTS && is_server_error(status),
        attempt >= MAX_ATTEMPTS ==> !(verdict_of(attempt, status) is Retry),
        !is_server_error(status) ==> !(verdict_of(attempt, status) is Retry),
{
}

} // verus!
