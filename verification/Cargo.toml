[package]
name = "xiaoo_shared"
version = "0.1.0"
edition = "2021"
publish = false

[dependencies]
base64 = "=0.22.1"
pbkdf2 = "=0.12.2"
sha2 = "=0.10.9"
rand = "=0.8.8"
serde = { version = "=1.0.229", features = ["derive"] }
serde_json = "=1.0.154"
libc = "=0.2.191"
tokio = { version = "=1.54.1", features = ["sync", "time", "rt", "fs", "macros"] }
toml = "=0.8.23"
dirs = "=5.0.1"
thiserror = "=1.0.69"
chrono = "0.4"
uuid = { version = "1", features = ["v4"] }
tar = "0.4"
tempfile = "3"
