[package]
name = "mediaforge"
version = "0.1.0"
edition = "2021"
publish = false

[dependencies]
dashmap = "*"
tokio = { version = "*", features = ["full"] }
tokio-util = "*"
