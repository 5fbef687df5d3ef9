[package]
name = "elk_mq"
version = "0.1.0"
edition = "2021"
publish = false

[dependencies]
uuid = { version = "1", features = ["v4"] }
redis = { version = "0.23", features = ["streams"] }
serde = { version = "1", features = ["derive"] }
serde_json = "1"
