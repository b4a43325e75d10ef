[package]
name = "kitchen_table"
version = "0.1.0"
edition = "2021"
publish = false

[dependencies]
getrandom = "=0.3.4"
base64ct = { version = "=1.8.3", features = ["alloc"] }
ed25519-dalek = "=2.2.0"
qrcode = { version = "=0.14.1", default-features = false }
serde_json = "1"
