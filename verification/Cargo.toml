[package]
name = "prometheus-http-exporter"
version = "0.1.0"
edition = "2021"
publish = false

[dependencies]
anyhow = "=1.0.104"
axum = "=0.8.9"
jq = "=0.1.1"
regex = "=1.13.1"
reqwest = "=0.12.28"
schemars = "1"
serde = { version = "=1.0.229", features = ["derive"] }
serde_json = "=1.0.154"
serde_yml = "=0.0.13"
tokio = { version = "=1.54.1", features = ["full"] }
tokio-cron-scheduler = { version = "=0.15.1", features = ["english"] }
tracing = "=0.1.44"
tracing-subscriber = "=0.3.23"
