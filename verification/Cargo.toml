[package]
name = "game_server_utils"
version = "0.1.0"
edition = "2021"
publish = false

[dependencies]
shellexpand = "*"
chrono = "*"
clap = { version = "*", features = ["derive"] }
toml = "*"
serde = { version = "*", features = ["derive"] }
dirs = "*"
anyhow = "*"
