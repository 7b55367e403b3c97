[package]
name = "notify_server"
version = "0.1.0"
edition = "2021"
publish = false

[dependencies]
tokio = { version = "=1.53.2", features = ["full"] }
axum = "=0.8.9"
sqlx = { version = "=0.9.0", features = ["runtime-tokio", "postgres"] }
ed25519-compact = "=2.6.0"
ct-codecs = "=1.1.8"
serde = { version = "=1.0.229", features = ["derive"] }
serde_json = "=1.0.151"
serde_yaml = "=0.9.34"
anyhow = "=1.0.104"
tracing = "=0.1.44"
tracing-subscriber = "=0.3.23"
uuid = { version = "=1.27.0", features = ["v4", "v7"] }
tower = "=0.5.3"
futures-util = "=0.3.34"
