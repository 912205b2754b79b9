[package]
name = "zeroclaw"
version = "0.8.0"
edition = "2021"
publish = false

[dependencies]
anyhow = "1"
async-trait = "0.1"
chrono = { version = "=0.4.45", features = ["serde"] }
clap = { version = "4", features = ["derive"] }
parking_lot = "0.12"
schemars = "1"
serde = { version = "1", features = ["derive"] }
serde_json = "=1.0.154"
thiserror = "2"
tokio = { version = "1", features = ["fs", "rt", "macros"] }
tracing = "0.1"
tracing-subscriber = "0.3"
