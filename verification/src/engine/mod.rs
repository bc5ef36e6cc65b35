//! Engine-side metadata: backend and family names, engine info, and a
//! deterministic mock engine for tests.
pub mod backend;
pub mod family;
pub mod info;
pub mod testing;
