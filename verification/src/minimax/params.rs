//! Translation of the bridge's transcription options into MiniMax
//! request parameters, and of MiniMax's answer into a transcript.
use vstd::prelude::*;
use vstd::string::StrSliceExecFns;

use crate::asr::{AsrError, TranscribeOptions, TranscriptionResult, TranscriptionSegment, clone_opt, opt_text};
use crate::minimax::language::{bcp47_check, validate_lang_bcp47};
use crate::text::{cat, cat3, trim, trim_slice};

verus! {

/// Granularity of the timestamps MiniMax returns.
#[derive(Debug, Clone, Copy, PartialEq, Eq)]
pub enum TimestampLevel {
    /// Sentence-level segments (the server default).
    Sentence,
    /// Word-level segments.
    Word,
}

impl Default for TimestampLevel {
    fn default() -> (t: Self)
        ensures
            t == TimestampLevel::Sentence,
    {
        TimestampLevel::Sentence
    }
}

impl TimestampLevel {
    /// The multipart value of the level: empty for sentences (the
    /// server default), `word` for words.
    pub fn as_str(&self) -> (r: &'static str)
        ensures
            r@ == match *self {
                TimestampLevel::Sentence => ""@,
                TimestampLevel::Word => "word"@,
            },
    {
        match self {
            TimestampLevel::Sentence => "",
            TimestampLevel::Word => "word",
        }
    }
}

/// MiniMax request parameters.
#[derive(Debug, Clone, PartialEq, Eq)]
pub struct MiniMaxParams {
    /// BCP-47 tag sent in the `language` header; `None` or blank means
    /// mixed-language recognition.
    pub language: Option<String>,
    /// Timestamp granularity.
    pub timestamp_level: TimestampLevel,
}

impl Default for MiniMaxParams {
    fn default() -> (p: Self)
        ensures
            p.language is None,
            p.timestamp_level == TimestampLevel::Sentence,
    {
        MiniMaxParams { language: None, timestamp_level: TimestampLevel::Sentence }
    }
}

/// How parameters become parts of the HTTP request.
pub trait MiniMaxParamsApply {
    /// Value of the `language` header, if one is sent.
    fn language_header(&self) -> Option<&str>;

    /// The extra multipart text fields, as name and value.
    fn multipart_fields(&self) -> Vec<(&'static str, &str)>;
}

/// The `language` header of `p`: the trimmed language when something
/// is left of it.
pub open spec fn header_of(p: MiniMaxParams) -> Option<Seq<char>> {
    match p.language {
        Some(l) => if trim(l@).len() > 0 {
            Some(trim(l@))
        } else {
            None
        },
        None => None,
    }
}

impl MiniMaxParamsApply for MiniMaxParams {
    fn language_header(&self) -> (r: Option<&str>)
        ensures
            match r {
                Some(h) => header_of(*self) == Some(h@),
                None => header_of(*self) is None,
            },
    {
        match &self.language {
            Some(l) => {
                let t = trim_slice(l.as_str());
                if t.unicode_len() > 0 {
                    Some(t)
                } else {
                    None
                }
            },
            None => None,
        }
    }

    fn multipart_fields(&self) -> (r: Vec<(&'static str, &str)>)
        ensures
            r@.len() == 1,
            r@[0].0@ == "timestamp_level"@,
            r@[0].1@ == match self.timestamp_level {
                TimestampLevel::Sentence => ""@,
                TimestampLevel::Word => "word"@,
            },
    {
        let mut v: Vec<(&'static str, &str)> = Vec::new();
        v.push(("timestamp_level", self.timestamp_level.as_str()));
        v
    }
}

/// Build MiniMax parameters from transcription options: the language is
/// checked against the whitelist first, translation is refused, and
/// timestamps select word-level segments.
pub fn apply(opts: &TranscribeOptions) -> (r: Result<MiniMaxParams, AsrError>)
    ensures
        match bcp47_check(opt_text(opts.language)) {
            Err(msg) => r matches Err(AsrError::InvalidInput(m)) && m@ == msg,
            Ok(()) => if opts.translate {
                r matches Err(AsrError::Unsupported(m)) && m@
                    == "MiniMax does not support translation to English"@
            } else {
                r matches Ok(p) && opt_text(p.language) == opt_text(opts.language)
                    && p.timestamp_level == if opts.timestamps {
                    TimestampLevel::Word
                } else {
                    TimestampLevel::Sentence
                }
            },
        },
{
    let lang: Option<&str> = match &opts.language {
        Some(s) => Some(s.as_str()),
        None => None,
    };
    match validate_lang_bcp47(lang) {
        Err(e) => {
            return Err(e);
        },
        Ok(()) => {},
    }
    if opts.translate {
        return Err(AsrError::Unsupported("MiniMax does not support translation to English"));
    }
    let timestamp_level = if opts.timestamps {
        TimestampLevel::Word
    } else {
        TimestampLevel::Sentence
    };
    Ok(MiniMaxParams { language: clone_opt(&opts.language), timestamp_level })
}

/// One segment of a MiniMax answer, its times already counted in
/// samples at 16 kHz.
#[derive(Debug, Clone, PartialEq, Eq)]
pub struct SegmentReply {
    /// First sample.
    pub start_sample: u64,
    /// One past the last sample.
    pub end_sample: u64,
    /// Speaker label, when diarisation named one.
    pub speaker: Option<String>,
    /// Text of the segment.
    pub text: String,
}

/// The text of a segment in the transcript: prefixed with `[label] `
/// when a speaker is named.
pub open spec fn segment_text(s: SegmentReply) -> Seq<char> {
    match s.speaker {
        Some(label) => "["@ + label@ + "] "@ + s.text@,
        None => s.text@,
    }
}

/// Assemble a transcript from MiniMax's text and segments: each segment
/// keeps its sample range and carries its speaker in its text; the
/// language is the requested one.
pub fn collect_result(text: String, segments: Vec<SegmentReply>, opts: &TranscribeOptions) -> (r: TranscriptionResult)
    ensures
        r.text == text,
        opt_text(r.language) == opt_text(opts.language),
        r.segments@.len() == segments@.len(),
        forall|i: int| 0 <= i < segments@.len() ==> {
            &&& (#[trigger] r.segments@[i]).start_sample == segments@[i].start_sample
            &&& r.segments@[i].end_sample == segments@[i].end_sample
            &&& r.segments@[i].text@ == segment_text(segments@[i])
        },
{
    let mut out: Vec<TranscriptionSegment> = Vec::new();
    let mut i: usize = 0;
    while i < segments.len()
        invariant
            i <= segments@.len(),
            out@.len() == i,
            forall|k: int| 0 <= k < i ==> {
                &&& (#[trigger] out@[k]).start_sample == segments@[k].start_sample
                &&& out@[k].end_sample == segments@[k].end_sample
                &&& out@[k].text@ == segment_text(segments@[k])
            },
        decreases segments@.len() - i,
    {
        let seg = &segments[i];
        let t = match &seg.speaker {
            Some(label) => cat(cat3("[", label.as_str(), "] ").as_str(), seg.text.as_str()),
            None => crate::text::owned(seg.text.as_str()),
        };
        out.push(TranscriptionSegment::new(seg.start_sample, seg.end_sample, t));
        i = i + 1;
    }
    TranscriptionResult::with_segments(text, clone_opt(&opts.language), out)
}

} // verus!
