[package]
name = "fractalengine"
version = "0.1.0"
edition = "2021"
publish = false

[dependencies]
url = "2"
ipnet = "2"
hex = "0.4"
ed25519-dalek = "2"
serde = { version = "1", features = ["derive"] }
serde_json = "1"
