[package]
name = "procpilot"
version = "0.7.0"
edition = "2021"
publish = false

[dependencies]
backon = { version = "1", features = ["tokio-sleep"] }
os_pipe = "1.2"
shared_child = "1.1"
tokio = { version = "1", features = ["process", "io-util", "rt", "rt-multi-thread", "time"] }
