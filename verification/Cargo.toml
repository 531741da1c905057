[package]
name = "krust"
version = "0.1.0"
edition = "2021"
publish = false

[dependencies]
tokio = { version = "1", features = ["rt", "sync", "time", "macros"] }
jni = "0.21"
lazy_static = "1"
