[package]
name = "pandora"
version = "0.1.0"
edition = "2021"
publish = false

[dependencies]
async-trait = "0.1"
bytes = "1"
chrono = "0.4"
dashmap = "*"
env_logger = "*"
hematite-nbt = "*"
lazy_static = "1"
log = "0.4"
num-bigint = "0.4"
num-traits = "0.2"
rand = "*"
serde = { version = "1", features = ["derive"] }
serde_json = "1"
tokio = { version = "1", features = ["full"] }
uuid = { version = "1", features = ["v4"] }
