[package]
name = "stellarconduit_core"
version = "0.1.0"
edition = "2021"
publish = false

[dependencies]
rand = "=0.8.8"
governor = "=0.6.3"
lru = "=0.12.5"
hex = "=0.4.3"
log = "=0.4.35"
thiserror = "=1.0.69"
tokio = { version = "=1.54.1", features = ["full"] }
tokio-util = "=0.7.20"
async-trait = "=0.1.92"
mdns-sd = "=0.10.5"
reqwest = { version = "=0.12.28", default-features = false, features = ["json"] }
serde = { version = "=1.0.229", features = ["derive"] }
clap = { version = "=4.6.7", features = ["derive"] }
env_logger = "=0.11.11"
