[package]
name = "jojo_server"
version = "0.1.0"
edition = "2021"
publish = false

[dependencies]
uuid = { version = "1", features = ["v4"] }
spin_sleep = "1"
tokio = { version = "1", features = ["full"] }
axum = { version = "0.7", features = ["ws"] }
futures-util = "0.3"
anyhow = "1"
log = "0.4"
pretty_env_logger = "0.5"
dotenv = "0.15"
serde = { version = "1", features = ["derive"] }
serde_json = "1"
bincode = "1"
enigo = "0.0.14"
