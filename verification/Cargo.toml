[package]
name = "plaid"
version = "0.1.0"
edition = "2021"
publish = false

[dependencies]
base64 = "0.13"
clap = "4"
crossbeam-channel = "0.5"
reqwest = { version = "0.11", default-features = false }
ring = "0.17"
serde = { version = "1", features = ["derive"] }
serde_json = "1"
tokio = { version = "1", features = ["rt-multi-thread", "macros", "fs", "time", "io-util", "sync"] }
toml = "0.8"
wasmer = "4"
