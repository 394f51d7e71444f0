[package]
name = "codecompass"
version = "0.1.0"
edition = "2021"
publish = false

[dependencies]
blake3 = "*"
serde_json = "*"
rusqlite = { version = "*", features = ["bundled"] }
anyhow = "*"
tokio = { version = "*", features = ["rt-multi-thread", "net", "macros", "io-util"] }
axum = "*"
tree-sitter = "*"
