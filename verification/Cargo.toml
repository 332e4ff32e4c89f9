[package]
name = "dictaphile"
version = "0.1.0"
edition = "2021"
publish = false

[dependencies]
anyhow = "1"
global-hotkey = "0.6"
hound = "3.5"
parking_lot = "0.12"
reqwest = { version = "0.12", features = ["blocking", "multipart", "json"] }
serde = { version = "1", features = ["derive"] }
serde_json = "1"
toml = "0.8"
