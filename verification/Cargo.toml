[package]
name = "greentic-mcp-client"
version = "0.1.0"
edition = "2021"
publish = false

[dependencies]
serde_json = "1"
reqwest = { version = "0.12", default-features = false }
tokio = { version = "1", features = ["process", "io-util", "time"] }
url = "2"
thiserror = "2"
