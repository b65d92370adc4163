[package]
name = "runtime_hang"
version = "0.1.0"
edition = "2021"
publish = false

[dependencies]
axum = "0.8"
once_cell = "1"
reqwest = { version = "0.12", default-features = false, features = ["charset", "http2"] }
tokio = { version = "1", features = ["macros", "net", "rt-multi-thread", "sync", "time"] }
tracing-subscriber = "0.3"
