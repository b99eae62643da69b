[package]
name = "hameg"
version = "0.1.0"
edition = "2021"
publish = false

[dependencies]
regex = "1"
serde_json = "1"
tokio = { version = "1", features = ["sync", "time"] }
async-trait = "0.1"
