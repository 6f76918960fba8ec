[package]
name = "warp_range"
version = "0.1.0"
edition = "2021"
publish = false

[dependencies]
async-stream = "0.3"
hyper = { version = "0.14", features = ["stream"] }
tokio = { version = "1", features = ["fs", "io-util"] }
warp = "0.3"
