[package]
name = "async_forge"
version = "0.1.0"
edition = "2021"
publish = false

[dependencies]
tokio = { version = "1", features = ["sync", "rt", "rt-multi-thread", "time"] }
thiserror = "2"
tracing = "0.1"
