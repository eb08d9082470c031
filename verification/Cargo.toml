[package]
name = "sfu_core"
version = "0.1.0"
edition = "2021"
publish = false

[dependencies]
webrtc = "=0.17.2"
tokio = { version = "*", features = ["full"] }
tokio-tungstenite = "*"
futures-util = "*"
serde = { version = "*", features = ["derive"] }
serde_json = "*"
toml = "*"
log = "*"
env_logger = "*"
anyhow = "*"
