[package]
name = "yt_sync"
version = "0.1.0"
edition = "2021"
publish = false

[dependencies]
dirs = "*"
indicatif = "*"
serde = { version = "*", features = ["derive"] }
serde_json = "*"
toml = "*"
