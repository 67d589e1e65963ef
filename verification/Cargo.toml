[package]
name = "job_scheduler"
version = "0.1.0"
edition = "2021"
publish = false

[dependencies]
chrono = "0.4"
chrono-tz = "0.10"
tokio = { version = "1", features = ["rt-multi-thread", "macros", "signal", "time", "sync"] }
tokio-util = "0.7"
reqwest = { version = "0.12", default-features = false, features = ["cookies"] }
regex = "1"
log = "0.4"
env_logger = "0.11"
anyhow = "1"
async-trait = "0.1"
