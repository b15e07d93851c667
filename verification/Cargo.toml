[package]
name = "readdeck"
version = "0.1.0"
edition = "2021"
publish = false

[dependencies]
axum = "=0.7.9"
bcrypt = "=0.15.1"
chrono = { version = "=0.4.45", features = ["serde"] }
dotenvy = "=0.15.7"
jsonwebtoken = "=9.3.1"
moka = { version = "=0.12.16", features = ["future"] }
reqwest = { version = "=0.12.28", default-features = false, features = ["json", "rustls-tls"] }
rust_decimal = "=1.43.0"
serde = { version = "=1.0.229", features = ["derive"] }
serde_json = "=1.0.154"
sqlx = { version = "=0.7.4", default-features = false, features = ["runtime-tokio", "macros", "postgres", "uuid", "chrono", "rust_decimal"] }
time = "=0.3.55"
tokio = { version = "=1.54.1", features = ["full"] }
tower-cookies = "=0.10.0"
tower_governor = "=0.4.3"
tower-http = { version = "=0.5.2", features = ["cors", "compression-gzip", "trace"] }
tracing = "=0.1.44"
tracing-subscriber = "=0.3.23"
urlencoding = "=2.1.3"
uuid = { version = "=1.29.1", features = ["v4", "serde"] }
validator = { version = "=0.16.1", features = ["derive"] }
