[package]
name = "flight_listings"
version = "0.1.0"
edition = "2021"
publish = false

[dependencies]
uuid = { version = "=1.29.0", features = ["v4"] }
aws-config = "=1.11.0"
aws-sdk-s3 = "=1.152.0"
diesel = { version = "=2.3.14", features = ["sqlite", "r2d2"] }
lambda_http = "=0.13.0"
serde = { version = "=1.0.229", features = ["derive"] }
serde_json = "=1.0.154"
serde_urlencoded = "=0.7.1"
tokio = { version = "=1.54.1", features = ["macros", "rt-multi-thread", "fs", "io-util"] }
