[package]
name = "rust_web_tools"
version = "0.1.0"
edition = "2021"
publish = false

[dependencies]
anyhow = "1"
async-graphql = { version = "=6.0.11", features = ["dataloader", "log", "opentelemetry"] }
async-graphql-axum = "=6.0.11"
axum = { version = "=0.6.20", features = ["headers"] }
chrono = "=0.4.45"
opentelemetry = "0.21"
opentelemetry-otlp = "0.14"
opentelemetry_sdk = { version = "0.21", features = ["rt-tokio"] }
sea-orm = "=0.12.15"
sentry = { version = "=0.32.3", default-features = false, features = ["backtrace", "contexts", "panic"] }
sentry-tracing = "=0.32.3"
serde = { version = "1", features = ["derive"] }
serde_json = "1"
tokio = { version = "1", features = ["full"] }
tower-http = { version = "=0.4.4", features = ["cors"] }
tracing = "0.1"
tracing-opentelemetry = "0.22"
tracing-subscriber = { version = "0.3", features = ["env-filter"] }
