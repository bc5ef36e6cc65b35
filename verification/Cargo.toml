[package]
name = "voxora"
version = "0.4.0"
edition = "2021"
publish = false

[dependencies]
sha2 = "=0.10.9"
secrecy = "=0.10.3"
serde = { version = "=1.0.229", features = ["derive"] }
serde_json = "=1.0.154"
dirs = "=6.0.0"
tokio = { version = "=1.54.1", features = ["rt", "fs", "io-util", "macros", "sync"] }
reqwest = { version = "=0.12.28", default-features = false, features = ["json", "stream"] }
futures-util = "=0.3.34"
async-trait = "=0.1.92"
ureq = { version = "=3.5.1", default-features = false, features = ["multipart"] }
libc = "=0.2.191"
thiserror = "=2.0.21"
anyhow = "=1.0.104"
candle-core = "=0.9.2"
qwen3-asr = { version = "=0.2.2", default-features = false }

[dev-dependencies]
hound = "=3.5.1"
