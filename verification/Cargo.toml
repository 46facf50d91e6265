[package]
name = "edge_supervisor"
version = "0.1.0"
edition = "2021"
publish = false

[dependencies]
uuid = { version = "1", features = ["v4"] }
tokio = { version = "1", features = ["rt", "sync", "macros", "net", "time"] }
anyhow = "1"
log = "0.4"
