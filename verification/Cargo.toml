[package]
name = "chaz"
version = "0.1.0"
edition = "2021"
publish = false

[dependencies]
regex = "=1.13.1"
matrix-sdk = { version = "=0.7.1", default-features = false, features = ["sqlite", "native-tls", "markdown"] }
tokio = { version = "1", features = ["full"] }
anyhow = "1"
clap = { version = "=4.6.7", features = ["derive"] }
serde = { version = "1", features = ["derive"] }
serde_yaml = "=0.9.34"
serde_json = "1"
dirs = "=5.0.1"
rand = "=0.8.8"
tracing = "0.1"
tracing-subscriber = "0.3"
openai-api-rs = "=5.2.7"
