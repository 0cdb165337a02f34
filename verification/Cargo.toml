[package]
name = "zet"
version = "0.3.0"
edition = "2021"
publish = false

[dependencies]
tokio = { version = "1", features = ["rt-multi-thread", "macros", "io-std", "net", "time"] }
tower-lsp = "0.20"
axum = "0.7"
reqwest = { version = "0.12", default-features = false }
serde_json = "1"
