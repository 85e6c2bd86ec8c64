[package]
name = "embed_engine"
version = "0.1.0"
edition = "2021"
publish = false

[dependencies]
anyhow = "*"
bm25 = "*"
clap = { version = "*", features = ["derive", "env"] }
fastembed = { version = "*", default-features = false }
poem = "*"
qdrant-client = "*"
serde = { version = "*", features = ["derive"] }
tokio = { version = "*", features = ["macros", "rt-multi-thread", "fs", "sync", "net", "time"] }
uuid = { version = "*", features = ["serde"] }
