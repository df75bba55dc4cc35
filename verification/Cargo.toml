[package]
name = "soulless"
version = "0.1.0"
edition = "2021"
publish = false

[dependencies]
uuid = { version = "=1.29.0", features = ["v4"] }
serde = { version = "=1.0.229", features = ["derive"] }
serde_json = "=1.0.154"
ron = "=0.12.3"
dirs = "=7.0.0"
freedesktop-desktop-entry = "*"
bincode = "1"
image = "*"
