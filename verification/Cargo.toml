[package]
name = "shush_rs"
version = "0.1.0"
edition = "2021"
publish = false

[dependencies]
anyhow = "1"
aws-config = "1"
aws-sdk-kms = "1"
base64 = "0.22"
clap = { version = "4", features = ["derive"] }
clap-stdin = "*"
tokio = { version = "1", features = ["macros", "rt-multi-thread", "process"] }
uuid = { version = "1", features = ["v4"] }
