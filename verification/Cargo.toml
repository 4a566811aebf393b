[package]
name = "rex_daemon"
version = "0.1.0"
edition = "2021"
publish = false

[dependencies]
lru = "*"
serde = { version = "1", features = ["derive"] }
serde_json = "1"
serde_yaml = "*"
