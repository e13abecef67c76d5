[package]
name = "vecstream"
version = "0.1.0"
edition = "2021"
publish = false

[dependencies]
bytes = "*"
aws-sdk-s3 = "*"
aws-config = "*"
tokio = { version = "*", features = ["rt", "rt-multi-thread", "sync", "macros"] }
futures = "*"
async-stream = "*"
tokio-stream = "*"
serde = { version = "*", features = ["derive"] }
thiserror = "*"
