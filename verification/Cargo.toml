[package]
name = "api_tester"
version = "0.1.0"
edition = "2021"
publish = false

[dependencies]
reqwest = { version = "0.12", features = ["json"] }
serde_json = "1"
serde_urlencoded = "0.7"
