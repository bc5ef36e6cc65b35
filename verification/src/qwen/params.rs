//! Transcription options into Qwen3-ASR options, and Qwen3-ASR output
//! into a transcript.
use vstd::prelude::*;

use crate::asr::{AsrError, TranscribeOptions, TranscriptionResult, opt_text};
use crate::qwen::language::{qwen_lang_check, validate_lang};
use crate::text::{ascii_lower, cat, chars_of, eq_str, lower_str, string_of, trim, trim_str};

verus! {

/// Sample rate Qwen3-ASR expects, in Hz.
pub const QWEN_SAMPLE_RATE: u32 = 16_000;

/// What the bridge hands to Qwen3-ASR for one transcription (the
/// engine's other options keep their defaults).
#[derive(Debug, Clone, PartialEq, Eq)]
pub struct QwenOptions {
    /// Language to force, lowercase; `None` detects it.
    pub language: Option<String>,
}

/// Qwen3-ASR options for transcription options: a requested language is
/// checked and lowercased; translation is refused after that check.
pub fn build_qwen_opts(opts: &TranscribeOptions) -> (r: Result<QwenOptions, AsrError>)
    ensures
        match opt_text(opts.language) {
            Some(l) if qwen_lang_check(l) is Err => r matches Err(AsrError::InvalidInput(m))
                && Err::<(), Seq<char>>(m@) == qwen_lang_check(l),
            _ => if opts.translate {
                r matches Err(AsrError::Unsupported(m)) && m@ == "translate"@
            } else {
                r matches Ok(q) && opt_text(q.language) == match opt_text(opts.language) {
                    Some(l) => Some(ascii_lower(l)),
                    None => None,
                }
            },
        },
{
    let language = match &opts.language {
        Some(name) => {
            match validate_lang(name.as_str()) {
                Err(e) => {
                    return Err(e);
                },
                Ok(()) => {},
            }
            Some(string_of(&lower_str(name.as_str())))
        },
        None => None,
    };
    if opts.translate {
        return Err(AsrError::Unsupported("translate"));
    }
    Ok(QwenOptions { language })
}

/// The transcript of Qwen3-ASR's output: the text trimmed; the language
/// the engine reports, except `forced`, which stands for the requested
/// language, lowercased. No segments: the engine gives no timestamps.
pub fn build_transcription_result(text: &str, qwen_language: &str, opts: &TranscribeOptions) -> (r: TranscriptionResult)
    ensures
        r.text@ == trim(text@),
        opt_text(r.language) == if qwen_language@ == "forced"@ {
            match opt_text(opts.language) {
                Some(l) => Some(ascii_lower(l)),
                None => None,
            }
        } else {
            Some(qwen_language@)
        },
        r.segments@.len() == 0,
{
    let language = if eq_str(&chars_of(qwen_language), "forced") {
        match &opts.language {
            Some(l) => Some(string_of(&lower_str(l.as_str()))),
            None => None,
        }
    } else {
        Some(crate::text::owned(qwen_language))
    };
    TranscriptionResult::with_segments(string_of(&trim_str(text)), language, Vec::new())
}

/// The public error of a Qwen3-ASR failure, given its rendered text.
pub fn map_qwen_error(rendered: &str) -> (e: AsrError)
    ensures
        e matches AsrError::Inference(m) && m@ == "qwen3-asr: "@ + rendered@,
{
    AsrError::Inference(cat("qwen3-asr: ", rendered))
}

} // verus!
