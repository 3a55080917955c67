[package]
name = "lianli-devices"
version = "0.1.0"
edition = "2021"
publish = false

[dependencies]
anyhow = "1"
image = { version = "0.25", default-features = false, features = ["jpeg", "png"] }
parking_lot = "0.12"
rusb = { version = "0.9", features = ["vendored"] }
tracing = "0.1"
