[package]
name = "user_monitor"
version = "0.1.0"
edition = "2021"
publish = false

[dependencies]
backoff = "0.4"
urlencoding = "2"
reqwest = { version = "0.11", features = ["blocking"] }
thiserror = "1"
log = "0.4"
env_logger = "0.10"
dotenv = "0.15"
