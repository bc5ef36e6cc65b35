//! Hugging Face model source: request validation, cache layout,
//! capability heuristics, quantization detection, download planning
//! and integrity checks.
pub mod api;
pub mod cache;
pub mod capabilities;
pub mod client;
pub mod download;
pub mod error;
pub mod fs_guard;
pub mod integrity;
pub mod listing;
pub mod known_models;
pub mod plan;
pub mod quantization;
pub mod resolver;
pub mod source;
