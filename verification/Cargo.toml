[package]
name = "risk_engine"
version = "0.1.0"
edition = "2021"
publish = false

[dependencies]
uuid = { version = "=1.29.0", features = ["v4", "serde"] }
chrono = { version = "=0.4.45", features = ["serde"] }
serde = { version = "=1.0.229", features = ["derive"] }
serde_json = "=1.0.154"
sha1 = "=0.10.7"
sha2 = "=0.10.9"
hex = "=0.4.3"
thiserror = "=1.0.69"
async-trait = "=0.1.92"
tokio = { version = "=1.54.1", features = ["rt-multi-thread", "macros", "time", "sync"] }
tracing = "=0.1.44"
maxminddb = "=0.24.0"
axum = "=0.7.9"
tower-http = { version = "=0.6.11", features = ["timeout", "limit"] }
fred = { version = "=10.1.0", features = ["i-scripts"] }
sqlx = { version = "=0.8.6", default-features = false, features = ["postgres", "runtime-tokio", "uuid", "chrono", "macros"] }
