[package]
name = "lexwisp"
version = "0.1.0"
edition = "2021"
publish = false

[dependencies]
uuid = { version = "=1.29.0", features = ["v4"] }
toml = "=1.1.8"
semver = "=1.0.28"
url = "=2.5.8"
serde = { version = "=1.0.229", features = ["derive"] }
serde_json = "1"
sha2 = "=0.10.9"
hex = "=0.4.3"
