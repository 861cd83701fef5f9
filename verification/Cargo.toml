[package]
name = "strikes"
version = "0.1.0"
edition = "2021"
publish = false

[dependencies]
serde = { version = "*", features = ["derive"] }
serde_json = "*"
clap = { version = "*", features = ["derive"] }
tokio = { version = "*", features = ["macros", "rt-multi-thread"] }
reqwest = { version = "*", default-features = false, features = ["json"] }
async-trait = "*"
comfy-table = "*"
config = "*"
handlebars = "*"
aws-config = "*"
aws-sdk-dynamodb = "*"
aws-sdk-s3 = "*"
aws-sdk-apigatewaymanagement = "*"
lambda_http = "*"
lambda_runtime = "*"
aws_lambda_events = "*"
