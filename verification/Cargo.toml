[package]
name = "dungeon_protocol"
version = "0.1.0"
edition = "2021"
publish = false

[dependencies]
getrandom = "=0.2.17"
chrono = "=0.4.45"
websocket = { version = "=0.27.1", default-features = false, features = ["sync"] }
serde = { version = "1", features = ["derive"] }
serde_yaml = "0.8"
