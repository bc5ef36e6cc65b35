//! Hardware backend descriptor shared across engine adapters.
use vstd::prelude::*;

use crate::text::{ascii_lower, eq_str, lower_str};

verus! {

/// Compile-time hardware backend the engine was built against.
#[derive(Debug, Clone, Copy, PartialEq, Eq, Hash)]
#[non_exhaustive]
pub enum BackendKind {
    /// Pure CPU execution.
    Cpu,
    /// NVIDIA CUDA.
    Cuda,
    /// Apple Metal.
    Metal,
    /// Vulkan compute.
    Vulkan,
}

/// Canonical config spelling of a backend.
pub open spec fn backend_name(k: BackendKind) -> Seq<char> {
    match k {
        BackendKind::Cpu => "cpu"@,
        BackendKind::Cuda => "cuda"@,
        BackendKind::Metal => "metal"@,
        BackendKind::Vulkan => "vulkan"@,
    }
}

/// The backend a config value names, compared case-insensitively.
pub open spec fn backend_from(value: Seq<char>) -> Option<BackendKind> {
    let l = ascii_lower(value);
    if l == "cpu"@ {
        Some(BackendKind::Cpu)
    } else if l == "cuda"@ {
        Some(BackendKind::Cuda)
    } else if l == "metal"@ {
        Some(BackendKind::Metal)
    } else if l == "vulkan"@ {
        Some(BackendKind::Vulkan)
    } else {
        None
    }
}

impl BackendKind {
    /// Canonical config spelling.
    pub fn as_config(self) -> (s: &'static str)
        ensures
            s@ == backend_name(self),
    {
        match self {
            BackendKind::Cpu => "cpu",
            BackendKind::Cuda => "cuda",
            BackendKind::Metal => "metal",
            BackendKind::Vulkan => "vulkan",
        }
    }

    /// Parse the canonical config spelling, ignoring ASCII case;
    /// `None` for anything else.
    pub fn from_config(value: &str) -> (r: Option<Self>)
        ensures
            r == backend_from(value@),
    {
        let l = lower_str(value);
        if eq_str(&l, "cpu") {
            Some(BackendKind::Cpu)
        } else if eq_str(&l, "cuda") {
            Some(BackendKind::Cuda)
        } else if eq_str(&l, "metal") {
            Some(BackendKind::Metal)
        } else if eq_str(&l, "vulkan") {
            Some(BackendKind::Vulkan)
        } else {
            None
        }
    }
}

/// Concrete backend a particular engine instance was loaded with.
#[derive(Debug, Clone, Copy, PartialEq, Eq)]
#[non_exhaustive]
pub struct BackendDescriptor {
    /// Backend kind the engine was loaded against.
    pub kind: BackendKind,
}

impl BackendDescriptor {
    /// The CPU descriptor — most common, useful as a default.
    pub fn cpu() -> (d: Self)
        ensures
            d.kind == BackendKind::Cpu,
    {
        BackendDescriptor { kind: BackendKind::Cpu }
    }

    /// Build a descriptor for an arbitrary backend kind.
    pub fn new(kind: BackendKind) -> (d: Self)
        ensures
            d.kind == kind,
    {
        BackendDescriptor { kind }
    }
}

} // verus!

verus! {

/// Every backend's canonical spelling parses back to that backend.
pub proof fn lemma_backend_round_trip(k: BackendKind)
    ensures
        backend_from(backend_name(k)) == Some(k),
{
    reveal_strlit("cpu");
    reveal_strlit("cuda");
    reveal_strlit("metal");
    reveal_strlit("vulkan");
    crate::text::lemma_lower_no_caps(backend_name(k));
}

/// Parsing ignores ASCII case: a value and its lowercase form name the
/// same backend.
pub proof fn lemma_backend_case_insensitive(value: Seq<char>)
    ensures
        backend_from(value) == backend_from(ascii_lower(value)),
{
    crate::text::lemma_lower_idempotent(value);
}

} // verus!
