[package]
name = "telemon"
version = "0.1.0"
edition = "2021"
publish = false

[dependencies]
serde = { version = "=1.0.229", features = ["derive"] }
serde_yaml = "=0.9.34"
serde_json = "=1.0.154"
libc = "=0.2.191"
anyhow = "=1.0.104"
libloading = "*"
