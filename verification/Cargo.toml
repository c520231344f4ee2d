[package]
name = "embedpipe"
version = "0.1.0"
edition = "2021"
publish = false

[dependencies]
uuid = { version = "1", features = ["v4"] }
serde = { version = "1", features = ["derive"] }
serde_json = "1"
tokio = { version = "1", features = ["rt-multi-thread", "macros", "fs", "io-util", "sync", "time"] }
reqwest = { version = "0.12", default-features = false }
qdrant-client = "*"
anyhow = "1"
indicatif = "*"
tracing = "*"
tracing-subscriber = "*"
