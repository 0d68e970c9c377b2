[package]
name = "commitlog"
version = "0.1.0"
edition = "2021"
publish = false

[dependencies]
crc32fast = "*"
bytes = "*"
parking_lot = "*"
tracing = "*"
tokio = { version = "*", default-features = false, features = ["sync", "time"] }
