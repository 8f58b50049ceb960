[package]
name = "schedule_registry"
version = "0.1.0"
edition = "2021"
publish = false

[dependencies]
uuid = { version = "*", features = ["v4"] }
chrono = "*"
serde = { version = "*", features = ["derive"] }
serde_json = "*"
clap = { version = "*", features = ["derive", "env"] }
env_logger = "*"
log = "*"
tide = "*"
tokio = { version = "*", features = ["rt", "macros"] }
