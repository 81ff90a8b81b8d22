[package]
name = "ipc2"
version = "0.1.0"
edition = "2021"
publish = false

[dependencies]
anyhow = "1"
async-trait = "0.1"
bincode = "1"
futures-util = "0.3"
log = "0.4"
num_cpus = "1"
parking_lot = "0.12"
serde = { version = "1", features = ["derive"] }
thiserror = "1"
tokio = { version = "1", features = ["full"] }
