[package]
name = "feldera_connectors"
version = "0.1.0"
edition = "2021"
publish = false

[dependencies]
anyhow = "1"
aws-config = { version = "=1.13.0", default-features = false, features = ["rt-tokio", "default-https-client"] }
aws-sdk-dynamodb = { version = "=1.136.0", default-features = false, features = ["rt-tokio", "default-https-client"] }
aws-types = "1"
chrono = "0.4"
crossbeam = "0.8"
futures-util = "0.3"
regex = "=1.13.1"
serde = { version = "1", features = ["derive"] }
serde_json = "=1.0.154"
solace-rs = "*"
thiserror = "2"
tokio = { version = "1", features = ["macros", "rt-multi-thread", "sync", "time"] }
tracing = "0.1"
utoipa = "5"

[dev-dependencies]
serde_dynamo = { version = "4", features = ["aws-sdk-dynamodb+1"] }
