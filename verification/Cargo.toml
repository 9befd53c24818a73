[package]
name = "daily_log"
version = "0.1.0"
edition = "2021"
publish = false

[dependencies]
chrono = "*"
clap = { version = "*", features = ["derive"] }
color-eyre = "*"
directories = "*"
serde = { version = "*", features = ["derive"] }
toml = "*"
