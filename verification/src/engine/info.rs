//! Metadata about a loaded engine.
use vstd::prelude::*;

use crate::asr::ModelCapabilities;
use crate::engine::family::EngineFamily;
use crate::text::owned;

verus! {

/// Information about an engine (or its adapter).
#[derive(Debug, Clone, PartialEq, Eq)]
#[non_exhaustive]
pub struct EngineInfo {
    /// Which engine family this engine belongs to.
    pub family: EngineFamily,
    /// Capabilities reported by the underlying model.
    pub capabilities: ModelCapabilities,
    /// Optional human-readable identifier.
    pub model_label: Option<String>,
    /// Optional on-disk path that the engine was loaded from.
    pub source_path: Option<String>,
}

impl EngineInfo {
    /// The required fields; label and path start empty.
    pub fn new(family: EngineFamily, capabilities: ModelCapabilities) -> (i: Self)
        ensures
            i.family == family,
            i.capabilities == capabilities,
            i.model_label is None,
            i.source_path is None,
    {
        EngineInfo { family, capabilities, model_label: None, source_path: None }
    }

    /// Set the model label, keeping every other field.
    pub fn with_model_label(self, label: &str) -> (i: Self)
        ensures
            i.family == self.family,
            i.capabilities == self.capabilities,
            i.model_label matches Some(l) && l@ == label@,
            i.source_path == self.source_path,
    {
        let mut s = self;
        s.model_label = Some(owned(label));
        s
    }

    /// Set the source path, keeping every other field.
    pub fn with_source_path(self, path: &str) -> (i: Self)
        ensures
            i.family == self.family,
            i.capabilities == self.capabilities,
            i.model_label == self.model_label,
            i.source_path matches Some(p) && p@ == path@,
    {
        let mut s = self;
        s.source_path = Some(owned(path));
        s
    }
}

} // verus!
