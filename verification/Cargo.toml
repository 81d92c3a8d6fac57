[package]
name = "nowhere_actors"
version = "0.1.0"
edition = "2021"
publish = false

[dependencies]
tokio = { version = "1", features = ["rt-multi-thread", "sync", "time", "macros", "signal"] }
rand = "0.8"
dashmap = "*"
uuid = { version = "*", features = ["v4"] }
