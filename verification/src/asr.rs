//! The shared vocabulary of the bridge: errors, capabilities,
//! transcription options and results, resolved model directories.
//!
//! Paths are carried as `String`s (Unix separators); callers that hold
//! a `PathBuf` convert at the edge.
use vstd::prelude::*;

use crate::text::{cat, cat3, decimal, decimal_string, owned};

verus! {

/// Classification of an I/O failure carried by [`AsrError::AudioIo`].
#[derive(Debug, Clone, Copy, PartialEq, Eq)]
pub enum IoKind {
    /// The path does not exist.
    NotFound,
    /// The process lacks the permission.
    PermissionDenied,
    /// Something is already at the path.
    AlreadyExists,
    /// The operation would block.
    WouldBlock,
    /// Any other kind.
    Other,
}

/// Error type every engine and model source reports.
#[derive(Debug, Clone, PartialEq, Eq)]
pub enum AsrError {
    /// Caller-supplied input was rejected.
    InvalidInput(String),
    /// The requested feature is not supported.
    Unsupported(&'static str),
    /// Configuration problem (credentials, settings).
    Config(String),
    /// The engine failed while running.
    Inference(String),
    /// No model under the given id.
    ModelNotFound(String),
    /// Network failure; `source` holds the rendered underlying error.
    Network { url: String, message: String, source: Option<String> },
    /// Local I/O failure at `path`.
    AudioIo { path: String, kind: IoKind, message: String },
    /// An advisory lock could not be taken.
    LockUnavailable { path: String, attempts: u32, message: String },
}

impl AsrError {
    /// Build a [`AsrError::Network`].
    pub fn network(url: String, message: String, source: Option<String>) -> (e: Self)
        ensures
            e == (AsrError::Network { url, message, source }),
    {
        AsrError::Network { url, message, source }
    }

    /// Build a [`AsrError::AudioIo`].
    pub fn audio_io(path: String, kind: IoKind, message: String) -> (e: Self)
        ensures
            e == (AsrError::AudioIo { path, kind, message }),
    {
        AsrError::AudioIo { path, kind, message }
    }

    /// Build a [`AsrError::LockUnavailable`].
    pub fn lock_unavailable(path: String, attempts: u32, message: String) -> (e: Self)
        ensures
            e == (AsrError::LockUnavailable { path, attempts, message }),
    {
        AsrError::LockUnavailable { path, attempts, message }
    }

    /// The error's text (see [`asr_message`]).
    pub fn message(&self) -> (r: String)
        ensures
            r@ == asr_message(*self),
    {
        match self {
            AsrError::InvalidInput(m) => cat("invalid input: ", m.as_str()),
            AsrError::Unsupported(m) => cat("unsupported: ", m),
            AsrError::Config(m) => cat("configuration error: ", m.as_str()),
            AsrError::Inference(m) => cat("inference failed: ", m.as_str()),
            AsrError::ModelNotFound(m) => cat("model not found: ", m.as_str()),
            AsrError::Network { url, message, .. } => cat(
                cat3("network error at ", url.as_str(), ": ").as_str(),
                message.as_str(),
            ),
            AsrError::AudioIo { path, message, .. } => cat(
                cat3("I/O error at ", path.as_str(), ": ").as_str(),
                message.as_str(),
            ),
            AsrError::LockUnavailable { path, attempts, message } => {
                let n = decimal_string(*attempts as u64);
                let head = cat3(cat3("could not acquire lock at ", path.as_str(), " after ").as_str(), n.as_str(), " attempt(s): ");
                cat(head.as_str(), message.as_str())
            },
        }
    }
}

/// The text of an [`AsrError`]: a prefix naming the kind of failure,
/// then its message (the URL or path first where it has one); the
/// underlying `source` of a network error is not repeated.
pub open spec fn asr_message(e: AsrError) -> Seq<char> {
    match e {
        AsrError::InvalidInput(m) => "invalid input: "@ + m@,
        AsrError::Unsupported(m) => "unsupported: "@ + m@,
        AsrError::Config(m) => "configuration error: "@ + m@,
        AsrError::Inference(m) => "inference failed: "@ + m@,
        AsrError::ModelNotFound(m) => "model not found: "@ + m@,
        AsrError::Network { url, message, .. } => "network error at "@ + url@ + ": "@ + message@,
        AsrError::AudioIo { path, message, .. } => "I/O error at "@ + path@ + ": "@ + message@,
        AsrError::LockUnavailable { path, attempts, message } => "could not acquire lock at "@ + path@ + " after "@
            + decimal(attempts as nat) + " attempt(s): "@ + message@,
    }
}

/// The texts of a list of strings.
pub open spec fn texts(v: Seq<String>) -> Seq<Seq<char>> {
    v.map_values(|s: String| s@)
}

/// An owned copy of a list of strings.
pub fn clone_strings(v: &Vec<String>) -> (r: Vec<String>)
    ensures
        texts(r@) == texts(v@),
{
    let mut r: Vec<String> = Vec::new();
    let mut i: usize = 0;
    while i < v.len()
        invariant
            i <= v.len(),
            texts(r@) == texts(v@.take(i as int)),
        decreases v.len() - i,
    {
        let s = v[i].clone();
        r.push(s);
        assert(texts(v@.take(i + 1)) =~= texts(v@.take(i as int)).push(v@[i as int]@));
        assert(texts(r@) =~= texts(v@.take(i as int)).push(v@[i as int]@));
        i = i + 1;
    }
    assert(v@.take(v.len() as int) =~= v@);
    r
}

/// Strings built from a list of literals.
pub fn strings_of(v: &[&str]) -> (r: Vec<String>)
    ensures
        texts(r@) == v@.map_values(|s: &str| s@),
{
    let mut r: Vec<String> = Vec::new();
    let mut i: usize = 0;
    while i < v.len()
        invariant
            i <= v.len(),
            texts(r@) == v@.take(i as int).map_values(|s: &str| s@),
        decreases v.len() - i,
    {
        r.push(owned(v[i]));
        assert(v@.take(i + 1).map_values(|s: &str| s@) =~= v@.take(i as int).map_values(
            |s: &str| s@,
        ).push(v@[i as int]@));
        assert(texts(r@) =~= v@.take(i as int).map_values(|s: &str| s@).push(v@[i as int]@));
        i = i + 1;
    }
    assert(v@.take(v.len() as int) =~= v@);
    r
}

/// What a model can do.
#[derive(Debug, Clone, PartialEq, Eq, Default)]
pub struct ModelCapabilities {
    /// More than one spoken language.
    pub multilingual: bool,
    /// Word-level timestamps.
    pub word_timestamps: bool,
    /// Incremental (streaming) decoding.
    pub streaming: bool,
    /// Language tags or names the model accepts.
    pub languages: Vec<String>,
}

impl ModelCapabilities {
    /// Build a capability record.
    pub fn new(multilingual: bool, word_timestamps: bool, streaming: bool, languages: Vec<String>) -> (c: Self)
        ensures
            c.multilingual == multilingual,
            c.word_timestamps == word_timestamps,
            c.streaming == streaming,
            c.languages == languages,
    {
        ModelCapabilities { multilingual, word_timestamps, streaming, languages }
    }

    /// The "nothing known" record: every flag off, no languages.
    pub fn unknown() -> (c: Self)
        ensures
            c.is_unknown(),
    {
        ModelCapabilities {
            multilingual: false,
            word_timestamps: false,
            streaming: false,
            languages: Vec::new(),
        }
    }

    /// Every flag off and no languages.
    pub open spec fn is_unknown(&self) -> bool {
        &&& !self.multilingual
        &&& !self.word_timestamps
        &&& !self.streaming
        &&& self.languages@.len() == 0
    }

    /// Same flags and same language texts.
    pub open spec fn same_as(&self, other: &ModelCapabilities) -> bool {
        &&& self.multilingual == other.multilingual
        &&& self.word_timestamps == other.word_timestamps
        &&& self.streaming == other.streaming
        &&& texts(self.languages@) == texts(other.languages@)
    }

    /// A copy with the same flags and languages.
    pub fn duplicate(&self) -> (c: Self)
        ensures
            c.same_as(self),
    {
        ModelCapabilities {
            multilingual: self.multilingual,
            word_timestamps: self.word_timestamps,
            streaming: self.streaming,
            languages: clone_strings(&self.languages),
        }
    }
}

/// Copy of an optional string.
pub fn clone_opt(o: &Option<String>) -> (r: Option<String>)
    ensures
        opt_text(r) == opt_text(*o),
{
    match o {
        Some(s) => Some(s.clone()),
        None => None,
    }
}

/// The text of an optional string.
pub open spec fn opt_text(o: Option<String>) -> Option<Seq<char>> {
    match o {
        Some(s) => Some(s@),
        None => None,
    }
}

/// Per-call options for a transcription.
#[derive(Debug, Clone, PartialEq, Eq)]
pub struct TranscribeOptions {
    /// Requested language; `None` lets the engine detect it.
    pub language: Option<String>,
    /// Translate to English.
    pub translate: bool,
    /// Ask for timestamps.
    pub timestamps: bool,
}

impl TranscribeOptions {
    /// Build options.
    pub fn new(language: Option<String>, translate: bool, timestamps: bool) -> (o: Self)
        ensures
            o.language == language,
            o.translate == translate,
            o.timestamps == timestamps,
    {
        TranscribeOptions { language, translate, timestamps }
    }
}

impl Default for TranscribeOptions {
    fn default() -> (o: Self)
        ensures
            o.language is None,
            !o.translate,
            !o.timestamps,
    {
        TranscribeOptions { language: None, translate: false, timestamps: false }
    }
}

/// One timed piece of a transcript.
#[derive(Debug, Clone, PartialEq, Eq)]
pub struct TranscriptionSegment {
    /// First sample of the segment.
    pub start_sample: u64,
    /// One past the last sample of the segment.
    pub end_sample: u64,
    /// Text of the segment.
    pub text: String,
}

impl TranscriptionSegment {
    /// Build a segment.
    pub fn new(start_sample: u64, end_sample: u64, text: String) -> (s: Self)
        ensures
            s.start_sample == start_sample,
            s.end_sample == end_sample,
            s.text == text,
    {
        TranscriptionSegment { start_sample, end_sample, text }
    }
}

/// The outcome of a transcription.
#[derive(Debug, Clone, PartialEq, Eq)]
pub struct TranscriptionResult {
    /// Full transcript.
    pub text: String,
    /// Detected or requested language.
    pub language: Option<String>,
    /// Timed segments (may be empty).
    pub segments: Vec<TranscriptionSegment>,
}

impl TranscriptionResult {
    /// A result with only a transcript.
    pub fn new(text: String) -> (r: Self)
        ensures
            r.text == text,
            r.language is None,
            r.segments@.len() == 0,
    {
        TranscriptionResult { text, language: None, segments: Vec::new() }
    }

    /// A result with every field given.
    pub fn with_segments(text: String, language: Option<String>, segments: Vec<TranscriptionSegment>) -> (r: Self)
        ensures
            r.text == text,
            r.language == language,
            r.segments == segments,
    {
        TranscriptionResult { text, language, segments }
    }
}

/// Numeric format of downloaded weights.
#[derive(Debug, Clone, Copy, PartialEq, Eq)]
pub enum Quantization {
    /// 32-bit float.
    F32,
    /// 16-bit float.
    F16,
    /// bfloat16.
    Bf16,
    /// GGML Q8_0.
    Q8_0,
    /// GGML Q4_K.
    Q4K,
}

/// Which source resolved a model directory.
#[derive(Debug, Clone, Copy, PartialEq, Eq)]
pub enum ModelSourceKind {
    /// The Hugging Face Hub cache.
    HuggingFace,
    /// A directory already on disk.
    Local,
}

/// A resolved model on disk.
#[derive(Debug, Clone, PartialEq, Eq)]
pub struct ModelDir {
    /// Directory holding the model.
    pub path: String,
    /// The specific file, when the source resolved one.
    pub entry: Option<String>,
    /// Which source produced it.
    pub kind: ModelSourceKind,
    /// Weight format.
    pub quantization: Quantization,
}

impl ModelDir {
    /// A directory without a specific entry.
    pub fn new(path: String, kind: ModelSourceKind, quantization: Quantization) -> (d: Self)
        ensures
            d.path == path,
            d.entry is None,
            d.kind == kind,
            d.quantization == quantization,
    {
        ModelDir { path, entry: None, kind, quantization }
    }

    /// A directory with a resolved entry file.
    pub fn with_entry(path: String, entry: String, kind: ModelSourceKind, quantization: Quantization) -> (d: Self)
        ensures
            d.path == path,
            d.entry == Some(entry),
            d.kind == kind,
            d.quantization == quantization,
    {
        ModelDir { path, entry: Some(entry), kind, quantization }
    }
}

/// Options of a model resolution.
#[derive(Debug, Clone, PartialEq, Eq, Default)]
pub struct ResolveOptions {
    /// Revision to fetch; `None` uses the source's default.
    pub revision: Option<String>,
    /// Bearer token; `None` defers to the environment.
    pub token: Option<String>,
    /// Largest accepted file, in bytes.
    pub max_bytes: Option<u64>,
    /// Longest accepted model id, in bytes.
    pub max_id_length: Option<usize>,
}

impl ResolveOptions {
    /// Options that only cap the file size.
    pub fn with_max_bytes(max_bytes: u64) -> (o: Self)
        ensures
            o.revision is None,
            o.token is None,
            o.max_bytes == Some(max_bytes),
            o.max_id_length is None,
    {
        ResolveOptions { revision: None, token: None, max_bytes: Some(max_bytes), max_id_length: None }
    }

    /// Options that only cap the id length.
    pub fn with_max_id_length(max_id_length: usize) -> (o: Self)
        ensures
            o.revision is None,
            o.token is None,
            o.max_bytes is None,
            o.max_id_length == Some(max_id_length),
    {
        ResolveOptions { revision: None, token: None, max_bytes: None, max_id_length: Some(max_id_length) }
    }
}

} // verus!

verus! {

/// A model a source can offer.
#[derive(Debug, Clone, PartialEq, Eq)]
pub struct ModelDescriptor {
    /// Model id (`org/name` for the Hub).
    pub id: String,
    /// Human-readable name.
    pub display_name: Option<String>,
    /// Capabilities, when known without a network round-trip.
    pub capabilities: Option<ModelCapabilities>,
}

impl ModelDescriptor {
    /// A descriptor with every field given.
    pub fn with_details(id: &str, display_name: Option<String>, capabilities: Option<ModelCapabilities>) -> (d: Self)
        ensures
            d.id@ == id@,
            d.display_name == display_name,
            d.capabilities == capabilities,
    {
        ModelDescriptor { id: owned(id), display_name, capabilities }
    }
}

} // verus!
