[package]
name = "swift_mt_message"
version = "0.1.0"
edition = "2021"
publish = false

[dependencies]
serde = { version = "=1.0.229", features = ["derive"] }
serde_json = "=1.0.154"
datalogic-rs = "=4.0.21"
datafake-rs = "=0.2.2"
chrono = "=0.4.45"
