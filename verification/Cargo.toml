[package]
name = "reochat"
version = "0.1.0"
edition = "2021"
publish = false

[dependencies]
anyhow = "1"
chrono = "=0.4.45"
clap = { version = "4", features = ["derive"] }
env_logger = "0.11"
log = "0.4"
matrix-sdk = { version = "=0.7.1", default-features = false, features = ["sqlite", "rustls-tls"] }
rand = "=0.8.8"
tokio = { version = "1", features = ["macros", "rt-multi-thread", "time"] }

[dev-dependencies]
serde_json = "1"
