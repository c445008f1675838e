[package]
name = "iggy"
version = "0.1.0"
edition = "2021"
publish = false

[dependencies]
anyhow = "1"
bytes = "1"
serde = { version = "1", features = ["derive"] }
tokio = { version = "1", features = ["sync", "net", "io-util", "rt"] }
tracing = "0.1"
