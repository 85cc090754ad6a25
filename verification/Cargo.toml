[package]
name = "fedit"
version = "0.1.0"
edition = "2021"
publish = false

[dependencies]
regex = "1"
serde = { version = "1", features = ["derive"] }
serde_json = "1"
thiserror = "2"
tauri = { version = "2", default-features = false }
tauri-plugin-dialog = "2"
tauri-plugin-store = "2"
