[package]
name = "soundboard_engine"
version = "0.1.0"
edition = "2021"
publish = false

[dependencies]
cpal = "=0.15.3"
lofty = "=0.22.4"
rodio = "=0.20.1"
serde = { version = "1", features = ["derive"] }
serde_json = "1"
