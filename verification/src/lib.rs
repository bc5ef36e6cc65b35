//! Verified core of the voxora speech-to-text bridge.
use vstd::prelude::*;

pub mod asr;
pub mod engine;
pub mod hf;
pub mod local;
pub mod minimax;
pub mod order;
pub mod paths;
pub mod qwen;
pub mod text;

verus! {
} // verus!
