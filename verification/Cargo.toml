[package]
name = "mobile_store"
version = "0.1.0"
edition = "2021"
publish = false

[dependencies]
ic-stable-structures = "=0.6.9"
ic-cdk = "*"
candid = "*"
serde = { version = "=1.0.229", features = ["derive"] }
