[package]
name = "tambola"
version = "0.1.0"
edition = "2021"
publish = false

[dependencies]
rand = "0.7"
uuid = { version = "1", features = ["v4", "serde"] }
serde = { version = "1", features = ["derive"] }
serde_json = "1"
tokio = { version = "1", features = ["full"] }
warp = "0.3"
futures = "0.3"
clap = { version = "4", features = ["derive"] }
toml = "0.8"
env_logger = "0.10"
