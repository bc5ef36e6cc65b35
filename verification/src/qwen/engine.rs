//! The decisions of loading a Qwen3-ASR engine that do not need the
//! engine itself: the capability record, the check of the model
//! directory, and whether a `tokenizer.json` must be synthesised.
use vstd::prelude::*;

use crate::asr::{AsrError, ModelCapabilities, strings_of, texts};
use crate::hf::known_models::qwen3_names;
use crate::paths::join;
use crate::qwen::language::known_languages;
use crate::text::cat;

verus! {

/// Qwen3-ASR's capability record: multilingual over its twenty names,
/// without word timestamps or streaming.
pub fn build_capabilities() -> (c: ModelCapabilities)
    ensures
        c.multilingual,
        !c.word_timestamps,
        !c.streaming,
        texts(c.languages@) == qwen3_names(),
{
    ModelCapabilities::new(true, false, false, strings_of(known_languages()))
}

/// A model path must be a directory.
pub fn check_model_dir(path: &str, is_dir: bool) -> (r: Result<(), AsrError>)
    ensures
        is_dir <==> r is Ok,
        !is_dir ==> (r matches Err(AsrError::InvalidInput(m)) && m@ == "model path is not a directory: "@ + path@),
{
    if is_dir {
        Ok(())
    } else {
        Err(AsrError::InvalidInput(cat("model path is not a directory: ", path)))
    }
}

/// What to do about `tokenizer.json` in a model directory, given which
/// files are present there: nothing when it exists (`Ok(false)`);
/// synthesise it from the vocab, merges and tokenizer config when all
/// three exist (`Ok(true)`); else a miss that names the directory.
pub fn tokenizer_plan(dir: &str, has_tokenizer: bool, has_vocab: bool, has_merges: bool, has_config: bool) -> (r: Result<bool, AsrError>)
    ensures
        has_tokenizer ==> r == Ok::<bool, AsrError>(false),
        !has_tokenizer && has_vocab && has_merges && has_config ==> r == Ok::<bool, AsrError>(true),
        !has_tokenizer && !(has_vocab && has_merges && has_config) ==> (r matches Err(AsrError::ModelNotFound(m))
            && m@ == "Qwen3-ASR cache at "@ + dir@
            + " is missing vocab.json / merges.txt / tokenizer_config.json; cannot synthesise tokenizer.json"@),
{
    if has_tokenizer {
        return Ok(false);
    }
    if !has_vocab || !has_merges || !has_config {
        return Err(AsrError::ModelNotFound(cat(
            cat("Qwen3-ASR cache at ", dir).as_str(),
            " is missing vocab.json / merges.txt / tokenizer_config.json; cannot synthesise tokenizer.json",
        )));
    }
    Ok(true)
}

} // verus!
