[package]
name = "sticker_saver"
version = "0.1.0"
edition = "2021"
publish = false

[dependencies]
kovi = "0.12"
serde = { version = "=1.0.229", features = ["derive"] }
serde_json = "=1.0.154"
