[package]
name = "splitdns"
version = "0.1.0"
edition = "2021"
publish = false

[dependencies]
dashmap = "*"
ipnet = "*"
clap = { version = "4", features = ["derive"] }
env_logger = "*"
futures = "0.3"
hickory-proto = "0.24"
hickory-resolver = "0.24"
log = "*"
nix = { version = "*", features = ["socket"] }
num_cpus = "1"
serde = { version = "1", features = ["derive"] }
serde_yaml = "*"
tokio = { version = "1", features = ["full"] }
