[package]
name = "yatch"
version = "0.1.0"
edition = "2021"
publish = false

[dependencies]
anyhow = "=1.0.104"
aws-config = "=1.13.0"
aws-sdk-s3 = "=1.157.0"
axum = "=0.8.9"
bytes = "=1.12.1"
console_error_panic_hook = "=0.1.7"
envy = "=0.4.2"
futures-util = "=0.3.34"
hex = "=0.4.3"
serde = { version = "=1.0.229", features = ["derive"] }
serde_json = "=1.0.154"
sha2 = "=0.11.1"
sqlx = { version = "=0.8.6", default-features = false, features = ["runtime-tokio", "sqlite"] }
tokio = { version = "=1.54.1", features = ["full"] }
tracing = "=0.1.44"
tracing-subscriber = { version = "=0.3.23", features = ["env-filter"] }
uuid = { version = "=1.29.0", features = ["v4", "js"] }
worker = { version = "=0.7.5", features = ["d1"] }
