[package]
name = "project_launcher"
version = "0.1.0"
edition = "2021"
publish = false

[dependencies]
regex = "1"
serde = { version = "1", features = ["derive"] }
serde_json = "1"
lazy_static = "1"
tauri = { version = "2", default-features = false }
tauri-plugin-store = "2"
