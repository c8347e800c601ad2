[package]
name = "rust_wal"
version = "0.1.0"
edition = "2021"
publish = false

[dependencies]
anyhow = "1"
async-raft = "0.6"
serde = { version = "1", features = ["derive"] }
serde_json = "1"
thiserror = "1"
tokio = { version = "1", features = ["sync", "rt-multi-thread", "macros"] }
tracing = "0.1"
