[package]
name = "keypulse"
version = "0.1.0"
edition = "2021"
publish = false

[dependencies]
chrono = { version = "0.4", default-features = false, features = ["clock", "std"] }
serde = { version = "1", features = ["derive"] }
serde_json = "1"
directories = "6"
core-graphics = "0.25"
core-foundation = "0.10"
tauri = { version = "2", default-features = false, features = ["wry", "tray-icon"] }
