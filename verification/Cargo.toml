[package]
name = "egocms_updater"
version = "0.1.0"
edition = "2021"
publish = false

[dependencies]
anyhow = "=1.0.104"
csv = "=1.4.0"
markdown = "=1.0.0"
reqwest = { version = "=0.12.28", default-features = false, features = ["blocking", "cookies", "rustls-tls"] }
serde = { version = "=1.0.229", features = ["derive"] }
serde_json = { version = "=1.0.154", features = ["float_roundtrip"] }
toml = "=0.8.23"
walkdir = "=2.5.0"
