[package]
name = "voice-transcription"
version = "0.1.0"
edition = "2021"
publish = false

[dependencies]
sha2 = "0.10"
dirs = "5"
serde = { version = "1", features = ["derive"] }
serde_json = "1"
thiserror = "1"
tokio = { version = "1", features = ["rt-multi-thread", "fs", "time", "macros"] }
async-trait = "0.1"
reqwest = { version = "0.12", default-features = false, features = ["json", "rustls-tls"] }
whisper-rs = "0.14"
pyo3 = "0.22"
uniffi = "0.28"
