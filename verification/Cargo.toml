[package]
name = "data"
version = "0.1.0"
edition = "2021"
publish = false

[dependencies]
validator = { version = "*", features = ["derive"] }
serde = { version = "1", features = ["derive"] }
aws-config = { version = "1", default-features = false }
aws-sdk-dynamodb = { version = "1", default-features = false }
