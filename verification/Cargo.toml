[package]
name = "clobber"
version = "0.1.0"
edition = "2021"
publish = false

[dependencies]
anyhow = "1"
clap = "2"
matrix-sdk = { version = "=0.4.1", default-features = false, features = ["rustls-tls", "sled_state_store"] }
rand = "0.8"
rpassword = "5"
serde = { version = "1", features = ["derive"] }
serde_json = "1"
serde_with = "1"
tokio = { version = "1", features = ["full"] }
toml = "0.5"
tracing = "0.1"
tracing-subscriber = "0.3"
