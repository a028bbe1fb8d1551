[package]
name = "elysium"
version = "0.1.0"
edition = "2021"
publish = false

[dependencies]
typst-syntax = "=0.13.1"
typst = "=0.13.1"
typst-kit = "=0.13.1"
parking_lot = "=0.12.5"
bevy = { version = "=0.16.1", default-features = false }
chrono = { version = "=0.4.45", default-features = false, features = ["std", "now", "serde"] }
serde = { version = "=1.0.229", features = ["derive"] }
toml = "=0.8.23"
anyhow = "=1.0.104"
jotdown = "=0.10.0"
maud = "=0.27.0"
url = { version = "=2.5.8", features = ["serde"] }
tokio = { version = "=1.54.1", features = ["rt-multi-thread", "fs", "process"] }
bytes = "=1.12.1"
reqwest = { version = "0.12", default-features = false }
zip = { version = "*", default-features = false, features = ["deflate"] }
