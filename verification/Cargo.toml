[package]
name = "lightkeeper"
version = "0.1.0"
edition = "2021"
publish = false

[dependencies]
sha256 = "1"
serde = { version = "1", features = ["derive"] }
serde_yaml = "0.9"
serde_json = "1"
log = "0.4"
env_logger = "0.11"
clap = { version = "4", features = ["derive"] }
chrono = { version = "0.4", features = ["serde"] }
ssh2 = "0.9"
