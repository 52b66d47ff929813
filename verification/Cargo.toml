[package]
name = "globchat"
version = "0.1.0"
edition = "2021"
publish = false

[dependencies]
anyhow = "1"
argon2 = "=0.5.3"
axum = { version = "=0.6.20", features = ["headers", "ws"] }
axum-macros = "=0.3.8"
chrono = "=0.4.45"
dotenv = "0.15"
futures = "0.3"
jsonwebtoken = "=9.3.1"
mongodb = "=2.8.2"
rand = "=0.8.8"
rs-snowflake = "=0.6.0"
serde = { version = "1", features = ["derive"] }
serde_json = "=1.0.154"
thiserror = "1"
tokio = { version = "1", features = ["full"] }
tracing = "0.1"
tracing-subscriber = "0.3"
uuid = { version = "1", features = ["serde", "v4"] }
