[package]
name = "wgcore"
version = "0.1.0"
edition = "2021"
publish = false

[dependencies]
base64 = "=0.22.1"
x25519-dalek = { version = "=2.0.1", features = ["static_secrets"] }
rand = "0.8"
ipnet = "2"
serde = { version = "1", features = ["derive"] }
serde_json = "1"
thiserror = "1"
