[package]
name = "barter-data"
version = "0.1.0"
edition = "2021"
publish = false

[dependencies]
futures = "0.3"
futures-util = "0.3"
serde = { version = "1", features = ["derive"] }
tokio = { version = "1", features = ["sync", "time"] }
tokio-stream = { version = "0.1", features = ["time"] }
tracing = "0.1"
