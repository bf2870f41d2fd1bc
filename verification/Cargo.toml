[package]
name = "plugdeck"
version = "0.1.0"
edition = "2021"
publish = false

[dependencies]
argon2 = "=0.5.3"
axum = { version = "=0.8.9", features = ["multipart"] }
base64 = "=0.22.1"
chrono = { version = "=0.4.45", features = ["serde"] }
hex = "=0.4.3"
mime_guess = "=2.0.5"
rand = "=0.8.8"
rusqlite = { version = "=0.32.1", features = ["bundled"] }
serde = { version = "=1.0.229", features = ["derive"] }
serde_json = { version = "=1.0.154", features = ["raw_value"] }
sha2 = "=0.10.9"
subtle = "=2.6.1"
tokio = { version = "=1.54.1", features = ["full"] }
tokio-util = { version = "=0.7.20", features = ["io"] }
toml = "=0.8.23"
url = "=2.5.8"
uuid = { version = "=1.29.0", features = ["v4"] }
