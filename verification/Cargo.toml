[package]
name = "orchestrator"
version = "0.1.0"
edition = "2021"
publish = false

[dependencies]
clarity = "*"
num256 = "*"
serde = { version = "*", features = ["derive"] }
serde_json = "*"
