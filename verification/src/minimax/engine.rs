//! What a MiniMax engine advertises.
use vstd::prelude::*;

use crate::asr::{ModelCapabilities, strings_of, texts};
use crate::minimax::language::{bcp47_tags, known_languages_bcp47};

verus! {

/// MiniMax's capability record: multilingual over the twenty tags, with
/// word timestamps, without streaming.
pub fn build_capabilities() -> (c: ModelCapabilities)
    ensures
        c.multilingual,
        c.word_timestamps,
        !c.streaming,
        texts(c.languages@) == bcp47_tags(),
{
    ModelCapabilities::new(true, true, false, strings_of(known_languages_bcp47()))
}

} // verus!
