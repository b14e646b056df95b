[package]
name = "ork"
version = "0.1.0"
edition = "2021"
publish = false

[dependencies]
anyhow = "1"
async-trait = "0.1"
chrono = { version = "=0.4.45", default-features = false, features = ["std", "clock"] }
cron = "=0.17.0"
dirs = "5"
futures = "0.3"
indexmap = "=2.14.2"
libloading = "0.8"
reqwest = { version = "0.12", default-features = false, features = ["json"] }
serde = { version = "=1.0.229", features = ["derive"] }
serde_json = "=1.0.154"
serde_yaml = "=0.9.34"
sha2 = "=0.10.9"
thiserror = "1"
tokio = { version = "1", features = ["rt-multi-thread", "macros", "sync", "time", "process", "fs", "io-util"] }
tracing = "0.1"
uuid = { version = "=1.29.0", features = ["v4"] }
