[package]
name = "battered"
version = "0.1.0"
edition = "2021"
publish = false

[dependencies]
anyhow = "1"
env_logger = "*"
log = "0.4"
notify-rust = "4"
serde = { version = "1", features = ["derive"] }
serde_with = "3"
shell-words = "1"
starship-battery = "*"
toml = "*"
