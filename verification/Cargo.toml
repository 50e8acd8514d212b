[package]
name = "review_store"
version = "0.1.0"
edition = "2021"
publish = false

[dependencies]
anyhow = "1"
fastembed = "4"
serde = { version = "1", features = ["derive"] }
serde_json = "1"
toml = "0.8"
tracing = "0.1"
