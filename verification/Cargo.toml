[package]
name = "buildomat"
version = "0.1.0"
edition = "2021"
publish = false

[dependencies]
rusty_ulid = "*"
hmac-sha256 = "*"
serde_json = "*"
chrono = "*"
