[package]
name = "codex-a2a"
version = "0.1.0"
edition = "2021"
publish = false

[dependencies]
ipnet = "2"
serde = { version = "1", features = ["derive"] }
serde_json = "1"
toml = "0.8"
