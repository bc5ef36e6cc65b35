//! The rules of the MiniMax HTTP exchange: limits checked before a
//! request is sent, the parts of the request, and the error each
//! failure status becomes.
use vstd::prelude::*;

use crate::asr::AsrError;
use crate::minimax::config::MiniMaxConfig;
use crate::minimax::params::{MiniMaxParams, MiniMaxParamsApply};
use crate::text::{cat, cat3, decimal, decimal_string, owned};

verus! {

/// Default API base URL.
pub const DEFAULT_ENDPOINT: &'static str = "https://api.minimax.io";

/// Default model name.
pub const DEFAULT_MODEL: &'static str = "asr-1.0";

/// Default request timeout, in seconds.
pub const DEFAULT_TIMEOUT_SECS: u64 = 600;

/// Largest audio payload the server accepts, in bytes (50 MiB).
pub const MAX_AUDIO_BYTES: usize = 50 * 1024 * 1024;

/// The error envelope of a failed MiniMax call.
#[derive(Debug, Clone, PartialEq, Eq)]
pub struct OaiError {
    /// Envelope type, usually `error`.
    pub kind: Option<String>,
    /// The error itself.
    pub error: OaiErrorDetail,
    /// Request id for support.
    pub request_id: Option<String>,
}

/// The detail of an [`OaiError`].
#[derive(Debug, Clone, PartialEq, Eq)]
pub struct OaiErrorDetail {
    /// Error class, e.g. `bad_request_error`.
    pub kind: String,
    /// Human-readable message.
    pub message: String,
    /// HTTP code as text, when the server repeats it.
    pub http_code: Option<String>,
}

/// What a client sends with every request.
#[derive(Debug, Clone, PartialEq, Eq)]
pub struct ClientSettings {
    /// Base URL.
    pub endpoint: String,
    /// Model name.
    pub model: String,
    /// Value of the `Authorization` header.
    pub auth_header: String,
    /// Request timeout in seconds.
    pub timeout_secs: u64,
}

/// The request settings of a configuration: its endpoint, model and
/// timeout, and the key as a bearer token.
pub fn client_settings(config: &MiniMaxConfig) -> (s: ClientSettings)
    ensures
        s.endpoint@ == config.endpoint_spec(),
        s.model@ == config.model_spec(),
        s.auth_header@ == "Bearer "@ + config.key_spec(),
        s.timeout_secs == config.timeout_spec(),
{
    ClientSettings {
        endpoint: owned(config.endpoint()),
        model: owned(config.model()),
        auth_header: cat("Bearer ", config.expose_api_key()),
        timeout_secs: config.timeout_secs(),
    }
}

/// The transcription URL under `endpoint`.
pub fn speech_url(endpoint: &str) -> (r: String)
    ensures
        r@ == endpoint@ + "/v1/speech_to_text"@,
{
    cat(endpoint, "/v1/speech_to_text")
}

/// The checks on the audio payload before anything is sent: it must
/// not be empty and must fit the server's cap.
pub fn check_audio(len: usize) -> (r: Result<(), AsrError>)
    ensures
        len == 0 ==> (r matches Err(AsrError::InvalidInput(m)) && m@ == "audio buffer is empty"@),
        len > MAX_AUDIO_BYTES ==> (r matches Err(AsrError::InvalidInput(m))
            && m@ == "audio exceeds 50 MB server cap ("@ + decimal(len as nat) + " bytes)"@),
        0 < len <= MAX_AUDIO_BYTES ==> r is Ok,
{
    if len == 0 {
        return Err(AsrError::InvalidInput(owned("audio buffer is empty")));
    }
    if len > MAX_AUDIO_BYTES {
        assert(len as u64 == len);
        return Err(AsrError::InvalidInput(
            cat3("audio exceeds 50 MB server cap (", decimal_string(len as u64).as_str(), " bytes)"),
        ));
    }
    Ok(())
}

/// The model name as the multipart form carries it: the configured
/// model, whatever it is (the server answers an unknown one with an
/// error status).
pub fn multipart_model(model: &str) -> (r: &str)
    ensures
        r@ == model@,
{
    model
}

/// The first extra multipart field of the parameters.
pub fn first_multipart_field<'a>(params: &'a MiniMaxParams) -> (r: (&'static str, &'a str))
    ensures
        r.0@ == "timestamp_level"@,
        r.1@ == match params.timestamp_level {
            crate::minimax::params::TimestampLevel::Sentence => ""@,
            crate::minimax::params::TimestampLevel::Word => "word"@,
        },
{
    let fields = params.multipart_fields();
    fields[0]
}

/// The error of a failed call whose body could not be read: by status.
pub open spec fn status_error(url: Seq<char>, status: u16, e: AsrError) -> bool {
    if status == 400 {
        e matches AsrError::InvalidInput(m) && m@ == "MiniMax HTTP 400 (no body available) at "@ + url
    } else if status == 401 || status == 402 {
        e matches AsrError::Config(m) && m@ == "MiniMax HTTP "@ + decimal(status as nat)
            + " auth/balance failure at "@ + url
    } else if status == 413 {
        e matches AsrError::InvalidInput(m) && m@ == "MiniMax HTTP 413 size cap at "@ + url
    } else if status == 422 {
        e matches AsrError::InvalidInput(m) && m@ == "MiniMax HTTP 422 content rejected at "@ + url
    } else if status == 429 {
        e matches AsrError::Network { url: u, message: m, source: None } && u@ == url
            && m@ == "MiniMax HTTP 429 at "@ + url
    } else {
        e matches AsrError::Inference(m) && m@ == "MiniMax HTTP "@ + decimal(status as nat) + " at "@ + url
    }
}

/// The error for a failure status when no body is available.
pub fn parse_status_only(url: &str, status: u16) -> (e: AsrError)
    ensures
        status_error(url@, status, e),
{
    let code = decimal_string(status as u64);
    if status == 400 {
        AsrError::InvalidInput(cat("MiniMax HTTP 400 (no body available) at ", url))
    } else if status == 401 || status == 402 {
        AsrError::Config(cat(cat3("MiniMax HTTP ", code.as_str(), " auth/balance failure at ").as_str(), url))
    } else if status == 413 {
        AsrError::InvalidInput(cat("MiniMax HTTP 413 size cap at ", url))
    } else if status == 422 {
        AsrError::InvalidInput(cat("MiniMax HTTP 422 content rejected at ", url))
    } else if status == 429 {
        AsrError::network(owned(url), cat("MiniMax HTTP 429 at ", url), None)
    } else {
        AsrError::Inference(cat(cat3("MiniMax HTTP ", code.as_str(), " at ").as_str(), url))
    }
}

/// The message of an error envelope, or `unknown` without one.
pub open spec fn envelope_message(envelope: Option<OaiError>) -> Seq<char> {
    match envelope {
        Some(e) => e.error.message@,
        None => "unknown"@,
    }
}

/// The error of a failed call, given the envelope parsed from its body
/// (`None` when the body is no envelope): by status, carrying the
/// envelope's message.
pub open spec fn body_error(url: Seq<char>, status: u16, message: Seq<char>, e: AsrError) -> bool {
    if status == 400 {
        e matches AsrError::InvalidInput(m) && m@ == "MiniMax 400: "@ + message
    } else if status == 401 {
        e matches AsrError::Config(m) && m@ == "invalid MINIMAX_API_KEY: "@ + message
    } else if status == 402 {
        e matches AsrError::Config(m) && m@ == "MiniMax account out of balance: "@ + message
    } else if status == 413 {
        e matches AsrError::InvalidInput(m) && m@ == "MiniMax 413: audio exceeds 50 MB ("@ + message + ")"@
    } else if status == 422 {
        e matches AsrError::InvalidInput(m) && m@ == "MiniMax 422: audio content rejected ("@ + message
            + ")"@
    } else if status == 429 {
        e matches AsrError::Network { url: u, message: m, source: None } && u@ == url
            && m@ == "MiniMax 429 rate limit: "@ + message
    } else {
        e matches AsrError::Inference(m) && m@ == "MiniMax "@ + decimal(status as nat) + ": "@ + message
    }
}

/// The error for a failure status, given the parsed error envelope.
pub fn parse_error_body(url: &str, status: u16, envelope: Option<&OaiError>) -> (e: AsrError)
    ensures
        body_error(url@, status, envelope_message(match envelope { Some(x) => Some(*x), None => None }), e),
{
    let message: &str = match envelope {
        Some(x) => x.error.message.as_str(),
        None => "unknown",
    };
    if status == 400 {
        AsrError::InvalidInput(cat("MiniMax 400: ", message))
    } else if status == 401 {
        AsrError::Config(cat("invalid MINIMAX_API_KEY: ", message))
    } else if status == 402 {
        AsrError::Config(cat("MiniMax account out of balance: ", message))
    } else if status == 413 {
        AsrError::InvalidInput(cat3("MiniMax 413: audio exceeds 50 MB (", message, ")"))
    } else if status == 422 {
        AsrError::InvalidInput(cat3("MiniMax 422: audio content rejected (", message, ")"))
    } else if status == 429 {
        AsrError::network(owned(url), cat("MiniMax 429 rate limit: ", message), None)
    } else {
        let code = decimal_string(status as u64);
        AsrError::Inference(cat(cat3("MiniMax ", code.as_str(), ": ").as_str(), message))
    }
}

} // verus!
