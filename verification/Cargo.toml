[package]
name = "agentsync"
version = "0.1.0"
edition = "2021"
publish = false

[dependencies]
dirs = "*"
once_cell = "1"
serde = { version = "1", features = ["derive"] }
serde_json = "1"
tiny_http = "0.12"
uuid = { version = "1", features = ["v4"] }
