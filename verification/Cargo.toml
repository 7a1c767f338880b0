[package]
name = "cc_demon"
version = "0.1.0"
edition = "2021"
publish = false

[dependencies]
chrono = "=0.4.45"
cron = "=0.17.0"
dirs = "=7.0.0"
serde = { version = "1", features = ["derive"] }
toml = "0.8"
