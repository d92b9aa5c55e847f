[package]
name = "env_loader"
version = "0.1.0"
edition = "2021"
publish = false

[dependencies]
aws-config = "1"
aws-sdk-secretsmanager = "1"
clap = { version = "4", features = ["derive"] }
nix = { version = "*", features = ["process"] }
tokio = { version = "1", features = ["macros", "rt-multi-thread"] }
tracing = "0.1"
tracing-subscriber = "0.3"
