[package]
name = "crypto_trading"
version = "0.1.0"
edition = "2021"
publish = false

[dependencies]
anyhow = "1"
chrono = "0.4"
config = "0.11"
crossbeam-channel = "0.5"
futures = "0.3"
hex = "0.4"
hmac = "0.11"
jsonrpc = "0.12"
log = "0.4"
pretty_env_logger = "0.4"
reqwest = { version = "0.11", default-features = false, features = ["json", "rustls-tls"] }
serde = { version = "1", features = ["derive"] }
serde_json = "1"
sha2 = "0.9"
tokio = { version = "1", features = ["macros", "rt-multi-thread"] }
tokio-tungstenite = { version = "0.14", features = ["rustls-tls"] }
