[package]
name = "proxy_server"
version = "0.1.0"
edition = "2021"
publish = false

[dependencies]
axum = "0.6"
chrono = "0.4"
futures = "0.3"
prometheus = "0.13"
reqwest = { version = "0.11", features = ["stream"] }
serde_json = "1"
tokio = { version = "1", features = ["full"] }
tokio-stream = "0.1"
tracing = "0.1"
tracing-subscriber = { version = "0.3", features = ["env-filter"] }
url = "2"
