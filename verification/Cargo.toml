[package]
name = "tuskar"
version = "0.1.0"
edition = "2021"
publish = false

[dependencies]
base64 = "=0.22.1"
sha1 = "=0.10.7"
sha2 = "=0.10.9"
hmac = "=0.12.1"
hex = "=0.4.3"
subtle = "=2.6.1"
infer = "=0.22.0"
chrono = "=0.4.45"
serde = { version = "=1.0.229", features = ["derive"] }
serde_json = "=1.0.154"
ipnet = "=2.12.2"
uuid = { version = "=1.29.0", features = ["v4"] }
anyhow = "=1.0.104"
dotenvy = "=0.15.7"
futures = "=0.3.34"
tokio = { version = "=1.54.1", features = ["full"] }
tokio-util = { version = "=0.7.20", features = ["io"] }
axum = "=0.8.9"
tower-http = { version = "=0.6.11", features = ["cors", "fs", "trace", "request-id"] }
sqlx = { version = "=0.8.6", default-features = false, features = ["sqlite", "runtime-tokio", "derive"] }
bcrypt = "=0.19.3"
governor = "=0.10.4"
prometheus-client = "=0.25.2"
reqwest = { version = "=0.12.28", default-features = false, features = ["rustls-tls", "stream", "json"] }
openidconnect = "=4.1.0"
aws-config = { version = "=1.13.0", default-features = false, features = ["rt-tokio", "behavior-version-latest"] }
aws-sdk-s3 = { version = "=1.157.0", default-features = false, features = ["rt-tokio", "behavior-version-latest"] }
tracing = "=0.1.44"
tracing-subscriber = { version = "=0.3.23", features = ["env-filter"] }
libc = "=0.2.191"
