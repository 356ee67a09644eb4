[package]
name = "nnio"
version = "0.1.0"
edition = "2021"
publish = false

[dependencies]
serde_json = "*"
nevermind-neu = "*"
tokio = { version = "*", features = ["full"] }
serde = { version = "*", features = ["derive"] }
serde_yaml = "*"
directories = "*"
log = "*"
env_logger = "*"
