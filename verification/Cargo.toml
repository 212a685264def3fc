[package]
name = "screenforme"
version = "0.1.0"
edition = "2021"
publish = false

[dependencies]
base64 = "=0.22.1"
serde = { version = "1", features = ["derive"] }
serde_json = "=1.0.154"
sys-locale = "=0.3.2"
global-hotkey = "=0.7.0"
image = { version = "=0.25.10", default-features = false, features = ["png"] }
