[package]
name = "kana_tutor"
version = "0.1.0"
edition = "2021"
publish = false

[dependencies]
rand = "=0.8.8"
serde = { version = "=1.0.229", features = ["derive"] }
serde_json = "=1.0.154"
tokio = { version = "=1.54.1", features = ["rt-multi-thread", "macros", "net", "sync"] }
axum = "=0.7.9"
tower-http = { version = "=0.5.2", features = ["cors", "fs"] }
sqlx = { version = "=0.7.4", default-features = false, features = ["sqlite", "runtime-tokio", "macros"] }
anyhow = "=1.0.104"
uuid = { version = "=1.29.0", features = ["v4"] }
dotenvy = "=0.15.7"
env_logger = "=0.11.11"
chrono = "=0.4.45"
reqwest = { version = "=0.12.28", default-features = false, features = ["json", "rustls-tls"] }
color-eyre = "=0.6.5"
ratatui = "=0.28.1"
crossterm = "=0.28.1"
