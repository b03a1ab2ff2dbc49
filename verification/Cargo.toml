[package]
name = "woofer"
version = "0.1.0"
edition = "2021"
publish = false

[dependencies]
tokio = { version = "*", features = ["sync", "rt-multi-thread", "net", "macros", "time"] }
axum = "*"
futures = "*"
tokio-stream = { version = "*", features = ["time"] }
reqwest = "*"
reqwest-eventsource = "*"
