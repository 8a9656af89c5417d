[package]
name = "bookmark"
version = "0.1.0"
edition = "2021"
publish = false

[dependencies]
anyhow = "=1.0.104"
argon2 = "=0.5.3"
askama = "=0.14.0"
axum = { version = "=0.8.9", features = ["multipart"] }
axum-extra = { version = "=0.10.3", features = ["form"] }
bytes = "=1.12.1"
chrono = { version = "=0.4.45", features = ["serde"] }
chrono-tz = "=0.10.4"
fluent-templates = "=0.13.3"
humantime = "=2.4.0"
image = { version = "=0.25.10", default-features = false, features = ["png", "jpeg", "gif", "webp", "bmp"] }
jsonwebtoken = "=9.3.1"
regex = "=1.13.1"
secrecy = { version = "=0.10.3", features = ["serde"] }
serde = { version = "=1.0.229", features = ["derive"] }
serde_json = "=1.0.154"
serde_path_to_error = "=0.1.20"
sqlx = { version = "=0.8.6", default-features = false, features = ["runtime-tokio", "postgres", "chrono", "json", "derive"] }
thiserror = "=2.0.21"
tokio = { version = "=1.54.1", features = ["full"] }
tokio-util = { version = "=0.7.20", features = ["io"] }
tower = "=0.5.3"
tower-http = { version = "=0.6.11", features = ["fs", "compression-gzip", "cors", "request-id", "timeout", "trace"] }
tower-sessions = "=0.14.0"
tracing = "=0.1.44"
tracing-subscriber = { version = "=0.3.23", features = ["env-filter"] }
urlencoding = "=2.1.3"
uuid = { version = "=1.29.1", features = ["v4"] }
validator = { version = "=0.20.0", features = ["derive"] }
webp = "=0.3.1"
