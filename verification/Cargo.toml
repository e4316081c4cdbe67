[package]
name = "ollama"
version = "0.1.0"
edition = "2021"
publish = false

[dependencies]
anyhow = "1"
futures = "0.3"
http-client = "*"
serde = { version = "1", features = ["derive"] }
serde_json = "1"
