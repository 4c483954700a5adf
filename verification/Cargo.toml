[package]
name = "otlp_client"
version = "0.1.0"
edition = "2021"
publish = false

[dependencies]
http = "*"
reqwest = { version = "*", default-features = false, features = ["json"] }
serde = { version = "*", features = ["derive"] }
serde_json = "*"
tokio = { version = "*", features = ["rt-multi-thread", "sync", "time"] }
