[package]
name = "speedruns"
version = "0.1.0"
edition = "2021"
publish = false

[dependencies]
base64 = "0.13"
chrono = { version = "0.4", features = ["serde"] }
derive_more = "0.99"
env_logger = "0.7"
flate2 = "1"
getset = "0.0"
itertools = "0.8"
juniper = "0.14"
log = "0.4"
reqwest = "0.9"
serde = { version = "1", features = ["derive"] }
serde_json = "1"
tempfile = "3"
validator = "0.10"
validator_derive = "0.10"
