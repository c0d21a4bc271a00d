[package]
name = "unrest"
version = "0.1.0"
edition = "2021"
publish = false

[dependencies]
route-recognizer = "0.1"
serde = { version = "1", features = ["derive"] }
serde_json = "1"
hyper = "0.11"
futures = "0.1"
tokio-core = "0.1"
