//! MiniMax cloud speech-to-text: configuration, the language whitelist,
//! request parameters, the request and response rules of the HTTP
//! exchange, and the WAV container the audio travels in.
pub mod client;
pub mod config;
pub mod engine;
pub mod language;
pub mod params;
pub mod wav;
