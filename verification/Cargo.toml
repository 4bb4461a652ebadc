[package]
name = "borg"
version = "0.1.0"
edition = "2021"
publish = false

[dependencies]
anyhow = "1"
env_logger = "*"
globset = "0.4"
log = "0.4"
orgize = "0.9"
rss = "2"
seahorse = "*"
serde = { version = "1", features = ["derive"] }
toml = "*"
walkdir = "2"
