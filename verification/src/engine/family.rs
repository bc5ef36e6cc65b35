//! Engine family — the canonical spelling used in config files and
//! CLI flags.
use vstd::prelude::*;

use crate::text::{ascii_lower, cat3, debug_quote, debug_quoted, eq_str, lower_str, owned};

verus! {

/// Which engine family an adapter represents.
#[derive(Debug, Clone, Copy, PartialEq, Eq, Hash)]
#[non_exhaustive]
pub enum EngineFamily {
    /// whisper.cpp family.
    Whisper,
    /// Qwen3-ASR family.
    Qwen3Asr,
}

/// Canonical config spelling of a family.
pub open spec fn family_name(f: EngineFamily) -> Seq<char> {
    match f {
        EngineFamily::Whisper => "whisper"@,
        EngineFamily::Qwen3Asr => "qwen3-asr"@,
    }
}

/// Crate label of a family.
pub open spec fn family_crate(f: EngineFamily) -> Seq<char> {
    match f {
        EngineFamily::Whisper => "voxora-whisper"@,
        EngineFamily::Qwen3Asr => "voxora-qwen3asr"@,
    }
}

/// The family a config value names, compared case-insensitively;
/// `qwen3asr` and `qwen3_asr` are accepted aliases.
pub open spec fn family_from(value: Seq<char>) -> Option<EngineFamily> {
    let l = ascii_lower(value);
    if l == "whisper"@ {
        Some(EngineFamily::Whisper)
    } else if l == "qwen3-asr"@ || l == "qwen3asr"@ || l == "qwen3_asr"@ {
        Some(EngineFamily::Qwen3Asr)
    } else {
        None
    }
}

impl EngineFamily {
    /// Parse the canonical config spelling (or an alias), ignoring
    /// ASCII case.
    pub fn from_config(value: &str) -> (r: Option<Self>)
        ensures
            r == family_from(value@),
    {
        let l = lower_str(value);
        if eq_str(&l, "whisper") {
            Some(EngineFamily::Whisper)
        } else if eq_str(&l, "qwen3-asr") || eq_str(&l, "qwen3asr") || eq_str(&l, "qwen3_asr") {
            Some(EngineFamily::Qwen3Asr)
        } else {
            None
        }
    }

    /// Canonical config spelling.
    pub fn as_config(self) -> (s: &'static str)
        ensures
            s@ == family_name(self),
    {
        match self {
            EngineFamily::Whisper => "whisper",
            EngineFamily::Qwen3Asr => "qwen3-asr",
        }
    }

    /// Short label of the crate that implements the family.
    pub fn crate_label(self) -> (s: &'static str)
        ensures
            s@ == family_crate(self),
    {
        match self {
            EngineFamily::Whisper => "voxora-whisper",
            EngineFamily::Qwen3Asr => "voxora-qwen3asr",
        }
    }

    /// Parse, keeping the rejected input in the error.
    pub fn parse_config(s: &str) -> (r: Result<Self, InvalidEngineFamily>)
        ensures
            match r {
                Ok(f) => family_from(s@) == Some(f),
                Err(e) => family_from(s@) is None && e.0@ == s@,
            },
    {
        match Self::from_config(s) {
            Some(f) => Ok(f),
            None => Err(InvalidEngineFamily(owned(s))),
        }
    }
}

impl std::str::FromStr for EngineFamily {
    type Err = InvalidEngineFamily;

    fn from_str(s: &str) -> (r: Result<Self, Self::Err>)
        ensures
            match r {
                Ok(f) => family_from(s@) == Some(f),
                Err(e) => family_from(s@) is None && e.0@ == s@,
            },
    {
        Self::parse_config(s)
    }
}

/// Error of parsing an unknown engine family; keeps the input.
#[derive(Debug, Clone, PartialEq, Eq)]
pub struct InvalidEngineFamily(pub String);

impl InvalidEngineFamily {
    /// The error's text: the rejected input, quoted, and the accepted
    /// spellings.
    pub fn message(&self) -> (r: String)
        ensures
            r@ == "unknown engine_family "@ + debug_quoted(self.0@) + "; expected one of `whisper` or `qwen3-asr`"@,
    {
        cat3("unknown engine_family ", debug_quote(self.0.as_str()).as_str(), "; expected one of `whisper` or `qwen3-asr`")
    }
}

} // verus!

verus! {

/// Every family's canonical spelling parses back to that family.
pub proof fn lemma_family_round_trip(f: EngineFamily)
    ensures
        family_from(family_name(f)) == Some(f),
{
    reveal_strlit("whisper");
    reveal_strlit("qwen3-asr");
    reveal_strlit("qwen3asr");
    reveal_strlit("qwen3_asr");
    crate::text::lemma_lower_no_caps(family_name(f));
}

/// Parsing ignores ASCII case.
pub proof fn lemma_family_case_insensitive(value: Seq<char>)
    ensures
        family_from(value) == family_from(ascii_lower(value)),
{
    crate::text::lemma_lower_idempotent(value);
}

} // verus!
