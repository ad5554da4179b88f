[package]
name = "celeborn_shuffle"
version = "0.1.0"
edition = "2021"
publish = false

[dependencies]
arrow-ipc = "60"
async-channel = "2"
async-trait = "0.1"
bytes = "1"
futures = "0.3"
itertools = "0.14"
serde = { version = "1", features = ["derive"] }
tokio = { version = "1", features = ["rt"] }
tracing = "0.1"

[dev-dependencies]
arrow-array = "60"
arrow-schema = "60"
serde_json = "1"
