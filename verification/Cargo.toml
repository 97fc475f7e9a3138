[package]
name = "s3_get"
version = "0.1.0"
edition = "2021"
publish = false

[dependencies]
anyhow = "1"
aws-config = "1"
aws-credential-types = "1"
aws-sdk-s3 = "1"
aws-smithy-http-client = { version = "1", features = ["rustls-aws-lc"] }
aws-smithy-types = "1"
clap = { version = "4", features = ["derive", "env"] }
dirs = "6"
secrecy = { version = "0.10", features = ["serde"] }
serde = { version = "1", features = ["derive"] }
serde_json = "1"
tokio = { version = "1", features = ["fs", "io-std", "io-util", "macros", "rt-multi-thread"] }
uuid = { version = "1", features = ["v7"] }
