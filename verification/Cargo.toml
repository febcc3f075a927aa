[package]
name = "aster_core"
version = "0.1.0"
edition = "2021"
publish = false

[dependencies]
base64 = "=0.22.1"
hmac = "=0.12.1"
sha2 = "=0.10.9"
rand = "=0.8.8"
uuid = { version = "=1.29.0", features = ["v4"] }
serde = { version = "=1.0.229", features = ["derive"] }
serde_json = "=1.0.154"
rusqlite = { version = "=0.31.0", features = ["bundled", "hooks"] }
chrono = "=0.4.45"
directories = "=5.0.1"
opaque-ke = { version = "=4.0.1", features = ["argon2"] }
