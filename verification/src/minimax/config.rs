//! Credentials and endpoint settings of the MiniMax client.
use vstd::prelude::*;

use secrecy::SecretString;

use crate::asr::AsrError;
use crate::minimax::client::{DEFAULT_ENDPOINT, DEFAULT_MODEL, DEFAULT_TIMEOUT_SECS};
use crate::text::{owned, trim, trim_str};

verus! {

/// The API key, kept in a `secrecy::SecretString`: a box that zeroes
/// its text when dropped and prints only a redaction marker. Its text is
/// [`key_text`]; it is put in, read and copied only by the three
/// functions below.
#[verifier::external_body]
#[derive(Debug)]
pub struct ApiKey {
    secret: SecretString,
}

/// The text an [`ApiKey`] holds.
pub uninterp spec fn key_text(k: ApiKey) -> Seq<char>;

/// `SecretString::from(String)`: the box holds the given text.
#[verifier::external_body]
fn secret_from(key: String) -> (k: ApiKey)
    ensures
        key_text(k) == key@,
{
    ApiKey { secret: SecretString::from(key) }
}

/// `ExposeSecret::expose_secret` on the box: the text it holds.
#[verifier::external_body]
fn expose(k: &ApiKey) -> (r: &str)
    ensures
        r@ == key_text(*k),
{
    secrecy::ExposeSecret::expose_secret(&k.secret)
}

/// `Clone` of a `SecretString`: a box with the same text.
#[verifier::external_body]
fn clone_secret(k: &ApiKey) -> (r: ApiKey)
    ensures
        key_text(r) == key_text(*k),
{
    ApiKey { secret: k.secret.clone() }
}

impl Clone for ApiKey {
    fn clone(&self) -> (r: Self)
        ensures
            key_text(r) == key_text(*self),
    {
        clone_secret(self)
    }
}

/// Why a configuration was refused.
#[derive(Debug, Clone, Copy, PartialEq, Eq)]
pub enum MiniMaxConfigError {
    /// The API key is empty or only whitespace.
    EmptyApiKey,
}

impl MiniMaxConfigError {
    /// The error's text.
    pub fn message(&self) -> (r: String)
        ensures
            r@ == "MINIMAX_API_KEY must be non-empty"@,
    {
        owned("MINIMAX_API_KEY must be non-empty")
    }

    /// The public error this becomes: a configuration error with the
    /// same text.
    pub fn into_asr(self) -> (e: AsrError)
        ensures
            e matches AsrError::Config(m) && m@ == "MINIMAX_API_KEY must be non-empty"@,
    {
        AsrError::Config(self.message())
    }
}

/// Settings of the MiniMax client. The key's field name states that it
/// is kept out of `Debug`: the box prints only a redaction marker.
#[derive(Debug, Clone)]
pub struct MiniMaxConfig {
    api_key_redacted: ApiKey,
    endpoint: String,
    model: String,
    timeout_secs: u64,
}

impl MiniMaxConfig {
    /// The API key.
    pub closed spec fn key_spec(&self) -> Seq<char> {
        key_text(self.api_key_redacted)
    }

    /// The endpoint base URL.
    pub closed spec fn endpoint_spec(&self) -> Seq<char> {
        self.endpoint@
    }

    /// The model name.
    pub closed spec fn model_spec(&self) -> Seq<char> {
        self.model@
    }

    /// The request timeout in seconds.
    pub closed spec fn timeout_spec(&self) -> u64 {
        self.timeout_secs
    }

    /// Settings with the defaults, refusing a key that is empty after
    /// trimming whitespace.
    pub fn new(api_key: String) -> (r: Result<Self, MiniMaxConfigError>)
        ensures
            trim(api_key@).len() == 0 <==> r is Err,
            r matches Ok(c) ==> c.key_spec() == api_key@ && c.endpoint_spec() == "https://api.minimax.io"@
                && c.model_spec() == "asr-1.0"@ && c.timeout_spec() == 600,
    {
        let t = trim_str(api_key.as_str());
        if t.len() == 0 {
            return Err(MiniMaxConfigError::EmptyApiKey);
        }
        Ok(MiniMaxConfig {
            api_key_redacted: secret_from(api_key),
            endpoint: owned(DEFAULT_ENDPOINT),
            model: owned(DEFAULT_MODEL),
            timeout_secs: DEFAULT_TIMEOUT_SECS,
        })
    }

    /// The same settings with another endpoint.
    pub fn with_endpoint(self, endpoint: &str) -> (c: Self)
        ensures
            c.endpoint_spec() == endpoint@,
            c.key_spec() == self.key_spec(),
            c.model_spec() == self.model_spec(),
            c.timeout_spec() == self.timeout_spec(),
    {
        MiniMaxConfig { endpoint: owned(endpoint), ..self }
    }

    /// The same settings with another model.
    pub fn with_model(self, model: &str) -> (c: Self)
        ensures
            c.model_spec() == model@,
            c.key_spec() == self.key_spec(),
            c.endpoint_spec() == self.endpoint_spec(),
            c.timeout_spec() == self.timeout_spec(),
    {
        MiniMaxConfig { model: owned(model), ..self }
    }

    /// The same settings with another timeout.
    pub fn with_timeout_secs(self, timeout_secs: u64) -> (c: Self)
        ensures
            c.timeout_spec() == timeout_secs,
            c.key_spec() == self.key_spec(),
            c.endpoint_spec() == self.endpoint_spec(),
            c.model_spec() == self.model_spec(),
    {
        MiniMaxConfig { timeout_secs, ..self }
    }

    /// The API key in clear.
    pub fn expose_api_key(&self) -> (r: &str)
        ensures
            r@ == self.key_spec(),
    {
        expose(&self.api_key_redacted)
    }

    /// The endpoint base URL.
    pub fn endpoint(&self) -> (r: &str)
        ensures
            r@ == self.endpoint_spec(),
    {
        self.endpoint.as_str()
    }

    /// The model name.
    pub fn model(&self) -> (r: &str)
        ensures
            r@ == self.model_spec(),
    {
        self.model.as_str()
    }

    /// The request timeout in seconds.
    pub fn timeout_secs(&self) -> (r: u64)
        ensures
            r == self.timeout_spec(),
    {
        self.timeout_secs
    }
}

} // verus!
