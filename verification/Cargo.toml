[package]
name = "fintwind"
version = "0.1.0"
edition = "2021"
publish = false

[dependencies]
anyhow = "1"
crossbeam-channel = "0.5"
smol = "2"
uuid = { version = "1", features = ["v4"] }
