[package]
name = "hook_relay"
version = "0.1.0"
edition = "2021"
publish = false

[dependencies]
base64 = "=0.22.1"
dirs = "=7.0.0"
serde = { version = "=1.0.229", features = ["derive"] }
serde_json = "=1.0.154"
tauri = { version = "=2.12.5", default-features = false }
tauri-plugin-process = "=2.4.0"
tokio = { version = "=1.54.1", features = ["net", "io-util", "rt"] }
