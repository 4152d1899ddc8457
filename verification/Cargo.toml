[package]
name = "openair"
version = "0.1.0"
edition = "2021"
publish = false

[dependencies]
iso8601 = "*"
serde = { version = "1", features = ["derive"] }
serde_json = "1"
