[package]
name = "cloudwatch_output_redirector"
version = "1.0.0"
edition = "2021"
publish = false

[dependencies]
aws-config = "1"
aws-sdk-cloudwatchlogs = "1"
clap = { version = "4", features = ["derive"] }
tokio = { version = "1", features = ["full"] }
tracing = "0.1"
tracing-subscriber = "0.3"
