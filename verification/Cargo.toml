[package]
name = "fluxdns"
version = "0.1.0"
edition = "2021"
publish = false

[dependencies]
hickory-proto = "0.25"
regex = "1"
dashmap = "6"
rand = "0.8"
tokio = { version = "1", features = ["full"] }
serde = { version = "1", features = ["derive"] }
serde_json = "1"
toml = "0.8"
dotenvy = "0.15"
anyhow = "1"
tracing = "0.1"
base64 = "0.22"
axum = "0.7"
reqwest = { version = "0.12", default-features = false, features = ["rustls-tls"] }
chrono = "0.4"
