[package]
name = "lancedb"
version = "0.1.0"
edition = "2021"
publish = false

[dependencies]
serde = { version = "*", features = ["derive"] }
serde_json = "*"
arrow-array = "*"
arrow-schema = "*"
arrow-ipc = "*"
