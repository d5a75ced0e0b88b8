[package]
name = "stump_core"
version = "0.1.0"
edition = "2021"
publish = false

[dependencies]
xml-rs = "0.8"
walkdir = "2"
tokio = { version = "1", features = ["rt", "sync", "macros"] }
anyhow = "1"
log = "0.4"
