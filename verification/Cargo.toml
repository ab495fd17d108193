[package]
name = "comm"
version = "0.1.0"
edition = "2021"
publish = false

[dependencies]
bincode = "1"
serde = { version = "1", features = ["derive"] }
uuid = "*"
tokio = "0.1"
futures = "0.1"
