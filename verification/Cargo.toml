[package]
name = "port_mapping"
version = "0.1.0"
edition = "2021"
publish = false

[dependencies]
dashmap = "6"
socket2 = "0.5"
tokio = { version = "1", features = ["fs", "io-util", "macros", "net", "rt-multi-thread", "sync", "time"] }
