[package]
name = "geoconsole_v3"
version = "0.1.0"
edition = "2021"
publish = false

[dependencies]
anyhow = "=1.0.104"
arrow = { version = "=60.1.0", default-features = false, features = ["ipc"] }
axum = { version = "=0.7.9", features = ["multipart"] }
chrono = { version = "=0.4.45", features = ["serde"] }
duckdb = { version = "=1.20000.1", default-features = false }
reqwest = { version = "=0.12.28", default-features = false, features = ["json"] }
serde = { version = "=1.0.229", features = ["derive"] }
serde_json = "=1.0.154"
tokio = { version = "=1.54.1", features = ["full"] }
tower-http = { version = "=0.5.2", features = ["cors", "compression-gzip", "fs", "set-header", "trace"] }
tracing = "=0.1.44"
tracing-subscriber = { version = "=0.3.23", features = ["env-filter"] }
uuid = { version = "=1.29.0", features = ["v4", "serde"] }
