[package]
name = "rmqtt_kernel"
version = "0.1.0"
edition = "2021"
publish = false

[dependencies]
serde = { version = "1", features = ["derive"] }
serde_json = "1"
bincode = "1.3"
dashmap = "6"
jsonwebtoken = "9"
itoa = "1"
bytes = "1"
anyhow = "1"
log = "0.4"
futures = "0.3"
scopeguard = "1"
async-trait = "0.1"
tokio = { version = "1", features = ["rt", "time", "sync"] }
reqwest = { version = "0.12", default-features = false, features = ["json"] }
