[package]
name = "nicord"
version = "0.1.0"
edition = "2021"
publish = false

[dependencies]
anyhow = "=1.0.104"
env_logger = "=0.10.2"
log = "=0.4.34"
mongodb = "2"
rand = "=0.8.8"
serde = { version = "=1.0.229", features = ["derive"] }
serde_json = "=1.0.154"
tokio = { version = "=1.54.1", features = ["net", "io-util", "rt-multi-thread", "macros", "time", "sync"] }
