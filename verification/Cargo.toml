[package]
name = "analyzer"
version = "0.2.0"
edition = "2021"
publish = false

[dependencies]
regex = "=1.13.1"
serde = { version = "=1.0.229", features = ["derive"] }
toml = "=0.8.23"
dirs = "=5.0.1"
chrono = "=0.4.45"

[dev-dependencies]
serde_json = "1"
