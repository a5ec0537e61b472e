[package]
name = "wattdog"
version = "0.1.0"
edition = "2021"
publish = false

[dependencies]
anyhow = "1"
arrow = { version = "=55.2.0", default-features = false }
axum = "0.8"
chrono = "=0.4.45"
clap = { version = "4", features = ["derive"] }
humantime-serde = "1"
parquet = { version = "=55.2.0", default-features = false, features = ["arrow", "zstd"] }
prometheus-client = "=0.24.1"
reqwest = { version = "=0.12.28", default-features = false, features = ["rustls-tls"] }
serde = { version = "1", features = ["derive"] }
serde_json = "=1.0.154"
tokio = { version = "1", features = ["full"] }
tokio-util = "0.7"
toml = "0.8"
tracing = "0.1"
tracing-subscriber = { version = "0.3", features = ["env-filter"] }
url = { version = "=2.5.8", features = ["serde"] }
