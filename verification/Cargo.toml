[package]
name = "rust_claw"
version = "0.1.0"
edition = "2021"
publish = false

[dependencies]
adk-rust = { version = "*", features = ["deepseek"] }
anyhow = "1"
async-stream = "0.3"
axum = "0.8"
dotenvy = "0.15"
serde = { version = "1", features = ["derive"] }
serde_json = "1"
tokio = { version = "1", features = ["full"] }
tower-http = { version = "0.6", features = ["cors", "trace"] }
tracing = "0.1"
tracing-subscriber = { version = "0.3", features = ["env-filter"] }
