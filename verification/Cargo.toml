[package]
name = "access"
version = "0.1.0"
edition = "2021"
publish = false

[dependencies]
clap = "2"
daemonize = "0.4"
data-encoding = "1"
dirs = "1"
futures = "0.1"
serde = { version = "1", features = ["derive"] }
serde_cbor = "0.11"
serde_yaml = "0.8"
sodiumoxide = "0.2"
tokio-core = "0.1"
tokio-process = "0.1"
