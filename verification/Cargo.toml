[package]
name = "udp_echo"
version = "0.1.0"
edition = "2021"
publish = false

[dependencies]
dashmap = "*"
tokio = { version = "*", features = ["net", "rt", "rt-multi-thread", "time", "macros", "sync"] }
