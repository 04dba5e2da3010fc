[package]
name = "sdi_desktop"
version = "0.5.0"
edition = "2021"
publish = false

[dependencies]
serde_json = "1"
tokio = { version = "1", features = ["io-util", "net", "rt", "sync", "time"] }
