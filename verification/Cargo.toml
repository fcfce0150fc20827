[package]
name = "lucky"
version = "0.1.0"
edition = "2021"
publish = false

[dependencies]
sha2 = "0.10"
candid = "0.10"
ic-cdk = "0.17"
ic-cdk-timers = "0.11"
ic-llm = "*"
serde = { version = "1", features = ["derive"] }
