[package]
name = "audio_core"
version = "0.1.0"
edition = "2021"
publish = false

[dependencies]
rand = "0.8"
hound = "3"
zip = { version = "*", default-features = false }
serde = { version = "1", features = ["derive"] }
serde_json = "1"
