[package]
name = "ark"
version = "0.1.0"
edition = "2021"
publish = false

[dependencies]
nous = "=0.1.1"
chrono = { version = "=0.4.45", features = ["serde"] }
serde = { version = "=1.0.229", features = ["derive"] }
serde_json = "=1.0.154"
toml = "=1.1.8"
clap = { version = "=4.6.7", features = ["derive"] }
anyhow = "=1.0.104"
