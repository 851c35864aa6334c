[package]
name = "trakt_core"
version = "0.1.0"
edition = "2021"
publish = false

[dependencies]
emojis = "*"
http = "*"
serde = { version = "*", features = ["derive"] }
serde_json = "*"
ryu = "*"
