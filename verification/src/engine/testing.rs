//! A deterministic engine double for tests of the adapter contract.
use vstd::prelude::*;

use crate::asr::{AsrError, ModelCapabilities, TranscribeOptions, TranscriptionResult, strings_of, texts};
use crate::engine::backend::{BackendDescriptor, BackendKind};
use crate::engine::family::{EngineFamily, family_name};
use crate::engine::info::EngineInfo;
use crate::text::{cat, cat3, debug_quote, debug_quoted, decimal, decimal_string};

verus! {

/// Minimal engine double: fixed capabilities, a backend, and a
/// transcript that only depends on its inputs.
#[derive(Debug, Clone)]
pub struct MockAdapter {
    family: EngineFamily,
    capabilities: ModelCapabilities,
    backend: BackendDescriptor,
}

/// `{:?}` of an optional string.
pub open spec fn debug_opt(o: Option<Seq<char>>) -> Seq<char> {
    match o {
        None => "None"@,
        Some(s) => "Some("@ + debug_quoted(s) + ")"@,
    }
}

/// The transcript the double returns for `n` samples.
pub open spec fn mock_text(n: nat, language: Option<Seq<char>>) -> Seq<char> {
    "mock of "@ + decimal(n) + " samples ("@ + debug_opt(language) + ")"@
}

impl MockAdapter {
    /// The family the double reports.
    pub closed spec fn family_spec(&self) -> EngineFamily {
        self.family
    }

    /// The capabilities the double reports.
    pub closed spec fn capabilities_spec(&self) -> ModelCapabilities {
        self.capabilities
    }

    /// The backend the double reports.
    pub closed spec fn backend_spec(&self) -> BackendDescriptor {
        self.backend
    }

    /// A CPU-backed, English+Spanish, multilingual double for `family`.
    pub fn new(family: EngineFamily) -> (m: Self)
        ensures
            m.family_spec() == family,
            m.backend_spec().kind == BackendKind::Cpu,
            m.capabilities_spec().multilingual,
            m.capabilities_spec().word_timestamps,
            !m.capabilities_spec().streaming,
            texts(m.capabilities_spec().languages@) == seq!["en"@, "es"@],
    {
        let langs = strings_of(&["en", "es"]);
        proof {
            let l = seq!["en", "es"];
            assert(l.map_values(|s: &str| s@) =~= seq!["en"@, "es"@]);
        }
        let capabilities = ModelCapabilities::new(true, true, false, langs);
        MockAdapter { family, capabilities, backend: BackendDescriptor::new(BackendKind::Cpu) }
    }

    /// Swap the backend kind.
    pub fn with_backend(self, backend: BackendKind) -> (m: Self)
        ensures
            m.family_spec() == self.family_spec(),
            m.capabilities_spec() == self.capabilities_spec(),
            m.backend_spec().kind == backend,
    {
        let mut m = self;
        m.backend = BackendDescriptor::new(backend);
        m
    }

    /// Override the advertised capabilities.
    pub fn with_capabilities(self, caps: ModelCapabilities) -> (m: Self)
        ensures
            m.family_spec() == self.family_spec(),
            m.capabilities_spec() == caps,
            m.backend_spec() == self.backend_spec(),
    {
        let mut m = self;
        m.capabilities = caps;
        m
    }

    /// The family.
    pub fn family(&self) -> (f: EngineFamily)
        ensures
            f == self.family_spec(),
    {
        self.family
    }

    /// The backend.
    pub fn backend(&self) -> (b: BackendDescriptor)
        ensures
            b == self.backend_spec(),
    {
        self.backend
    }

    /// A copy of the advertised capabilities.
    pub fn capabilities(&self) -> (c: ModelCapabilities)
        ensures
            c.same_as(&self.capabilities_spec()),
    {
        self.capabilities.duplicate()
    }

    /// Engine info: family, capabilities, label `mock-<family>`.
    pub fn info(&self) -> (i: EngineInfo)
        ensures
            i.family == self.family_spec(),
            i.capabilities.same_as(&self.capabilities_spec()),
            i.model_label matches Some(l) && l@ == "mock-"@ + family_name(self.family_spec()),
            i.source_path is None,
    {
        let label = cat("mock-", self.family.as_config());
        EngineInfo::new(self.family, self.capabilities.duplicate()).with_model_label(label.as_str())
    }

    /// Transcribe `sample_count` samples: always succeeds with
    /// `mock of <n> samples (<language:?>)`.
    pub fn transcribe(&self, sample_count: usize, opts: &TranscribeOptions) -> (r: Result<TranscriptionResult, AsrError>)
        ensures
            r matches Ok(t) && t.text@ == mock_text(sample_count as nat, crate::asr::opt_text(opts.language))
                && t.language is None && t.segments@.len() == 0,
    {
        let lang = match &opts.language {
            None => crate::text::owned("None"),
            Some(l) => {
                let q = debug_quote(l.as_str());
                cat3("Some(", q.as_str(), ")")
            },
        };
        let n = decimal_string(sample_count as u64);
        let head = cat3("mock of ", n.as_str(), " samples (");
        let text = cat3(head.as_str(), lang.as_str(), ")");
        Ok(TranscriptionResult::new(text))
    }
}

} // verus!
