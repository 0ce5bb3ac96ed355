[package]
name = "arcana_core"
version = "0.1.0"
edition = "2021"
publish = false

[dependencies]
axum = { version = "*", features = ["multipart"] }
tempfile = "*"
tokio = { version = "*", features = ["full", "test-util"] }
