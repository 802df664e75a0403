[package]
name = "scuffle"
version = "0.1.0"
edition = "2021"
publish = false

[dependencies]
bytes = "=1.12.1"
tokio = { version = "=1.54.1", features = ["rt", "rt-multi-thread", "net", "sync", "time", "macros"] }
tokio-util = "=0.7.20"
