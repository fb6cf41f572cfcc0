[package]
name = "turnaki"
version = "0.1.0"
edition = "2021"
publish = false

[dependencies]
chrono = "0.4"
base64 = "0.22"
serde_json = "1"
uuid = { version = "1", features = ["v4"] }
validator = "0.18"
serde = { version = "1", features = ["derive"] }
tokio = { version = "1", features = ["macros", "rt"] }
lambda_http = "0.13"
lambda_runtime = "0.13"
aws-config = "1"
aws-sdk-dynamodb = "1"
aws-sdk-scheduler = "1"
aws-sdk-ses = "1"
tracing-subscriber = { version = "0.3", features = ["env-filter", "json"] }
