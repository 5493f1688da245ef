[package]
name = "chat_store"
version = "0.1.0"
edition = "2021"
publish = false

[dependencies]
candid = "*"
ic-cdk = "*"
ic-cdk-macros = "*"
ic-cdk-timers = "*"
serde = { version = "*", features = ["derive"] }
