[package]
name = "remerge"
version = "0.1.0"
edition = "2021"
publish = false

[dependencies]
hex = "=0.4.3"
regex = "=1.13.1"
serde = { version = "1", features = ["derive"] }
serde_json = "1"
sha2 = "=0.10.9"
toml = "0.8"
uuid = { version = "=1.29.0", features = ["v4"] }
