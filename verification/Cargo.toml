[package]
name = "sdrive_backend"
version = "0.1.0"
edition = "2021"
publish = false

[dependencies]
anyhow = "1"
async-trait = "0.1"
axum = { version = "0.8", features = ["multipart"] }
axum-extra = { version = "0.10", features = ["typed-header"] }
dashmap = "6"
log = "0.4"
reqwest = { version = "0.12", features = ["json"] }
serde = { version = "1", features = ["derive"] }
serde_json = "1"
tokio = { version = "1", features = ["full"] }
tokio-cron-scheduler = "0.13"
tower-http = { version = "0.6", features = ["cors"] }
tracing = "0.1"
tracing-log = "0.2"
tracing-subscriber = "0.3"
urlencoding = "2"
validator = { version = "0.20", features = ["derive"] }
