[package]
name = "uplink_core"
version = "0.1.0"
edition = "2021"
publish = false

[dependencies]
uuid = "1"
futures = "0.3"
tokio = { version = "1", default-features = false, features = ["time"] }
