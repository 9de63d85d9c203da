[package]
name = "wsn_server"
version = "0.1.0"
edition = "2021"
publish = false

[dependencies]
bincode = "1"
bytes = "1"
serde = { version = "1", features = ["derive"] }
serde_json = "1"
chrono = "0.4"
reqwest = { version = "0.11", default-features = false }
rumqttc = { version = "0.24", default-features = false }
tokio = { version = "1", features = ["full"] }
pretty_env_logger = "0.5"
color-backtrace = "0.7"
