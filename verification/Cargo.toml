[package]
name = "tiny_discord_bot"
version = "0.1.0"
edition = "2021"
publish = false

[dependencies]
strsim = "0.11"
poise = "0.6"
tokio = { version = "1", features = ["full"] }
chrono = "0.4"
dashmap = "6"
dotenvy = "0.15"
serde = { version = "1", features = ["derive"] }
serde_yml = "0.0.12"
lazy_static = "1"
log = "0.4"
indoc = "2"
