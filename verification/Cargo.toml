[package]
name = "allm"
version = "0.1.0"
edition = "2021"
publish = false

[dependencies]
hyper = { version = "1", features = ["http1", "server"] }
http-body-util = "0.1"
serde = { version = "1", features = ["derive"] }
serde_json = "1"
