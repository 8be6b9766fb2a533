[package]
name = "backtester"
version = "0.1.0"
edition = "2021"
publish = false

[dependencies]
chrono = "0.4"
csv = "1"
dyn-clone = "1"
env_logger = "0.10"
log = "0.4"
serde = { version = "1", features = ["derive"] }
serde_derive = "1"
