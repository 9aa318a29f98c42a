[package]
name = "pdns_remote"
version = "0.1.0"
edition = "2021"
publish = false

[dependencies]
tokio = { version = "1", features = ["full"] }
log = "0.4"
env_logger = "*"

[dev-dependencies]
serde_json = "1"
