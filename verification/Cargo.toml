[package]
name = "zeroclaw_jarvis"
version = "0.1.0"
edition = "2021"
publish = false

[dependencies]
sha2 = "0.10"
hex = "0.4"
reqwest = { version = "0.12", default-features = false, features = ["json"] }
serde = { version = "1", features = ["derive"] }
serde_json = "1"
tokio = { version = "1", features = ["rt", "rt-multi-thread", "time", "net", "sync", "fs", "macros", "process"] }
axum = "0.8"
parking_lot = "0.12"
anyhow = "1"
async-trait = "0.1"
cpal = "0.15"
