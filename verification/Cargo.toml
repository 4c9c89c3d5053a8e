[package]
name = "server_tuic"
version = "0.1.0"
edition = "2021"
publish = false

[dependencies]
bytes = "1"
eyre = "0.6"
socket2 = "0.6"
tokio = { version = "1", features = ["io-util", "macros", "net", "rt", "rt-multi-thread", "sync", "time"] }
tracing = "0.1"
