[package]
name = "tonic_core"
version = "0.1.0"
edition = "2021"
publish = false

[dependencies]
bytes = "1"
http = "1"
http-body = "1"
http-body-util = "0.1"
hyper = { version = "1", features = ["client", "http2"] }
hyper-util = { version = "0.1", features = ["client-legacy", "tokio"] }
tokio = { version = "1", features = ["sync", "rt", "time"] }
tokio-stream = "0.1"
tower = { version = "0.5", features = ["balance", "buffer", "discover", "util"] }
