[package]
name = "server"
version = "0.1.0"
edition = "2021"
publish = false

[dependencies]
tokio = { version = "1", features = ["sync", "macros", "rt-multi-thread"] }
axum = { version = "0.7", features = ["ws"] }
axum-server = "0.7"
serde = { version = "1", features = ["derive"] }
serde_json = "1"
anyhow = "1"
log = "0.4"
pretty_env_logger = "0.5"
