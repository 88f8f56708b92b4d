[package]
name = "clutch"
version = "0.1.0"
edition = "2021"
publish = false

[dependencies]
portable-pty = "0.8"
serde = { version = "1", features = ["derive"] }
serde_json = "1"
