//! Qwen3-ASR running locally: the language names it accepts, the
//! conversion of transcription options and results, the capability
//! record of a loaded engine, and the `tokenizer.json` synthesised
//! from a vocab/merges checkpoint.
pub mod engine;
pub mod language;
pub mod params;
pub mod tokenizer;
