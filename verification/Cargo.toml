[package]
name = "wt_core"
version = "0.1.0"
edition = "2021"
publish = false

[dependencies]
anyhow = "*"
dashmap = "*"
tokio = { version = "*", features = ["rt-multi-thread", "macros", "sync", "time"] }
tracing = "*"
tracing-subscriber = { version = "*", features = ["env-filter"] }
uuid = { version = "*", features = ["v4"] }
wtransport = "*"
