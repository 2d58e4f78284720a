[package]
name = "blipmq"
version = "0.1.0"
edition = "2021"
publish = false

[dependencies]
bytes = "1"
sha2 = "0.10"
base64 = "0.22"
uuid = { version = "1", features = ["v4"] }
rand = "0.8"
crossbeam-queue = "0.3"
dashmap = "6"
num_cpus = "1"
ahash = "0.8"
hdrhistogram = "7"
serde = { version = "1", features = ["derive"] }
serde_json = "1"
toml = "0.8"
tokio = { version = "1", features = ["full"] }
anyhow = "1"
thiserror = "1"
parking_lot = "0.12"
once_cell = "1"
tracing = "0.1"
