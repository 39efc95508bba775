[package]
name = "qr_foundry"
version = "0.1.0"
edition = "2021"
publish = false

[dependencies]
base64 = "*"
image = "*"
rqrr = "*"
zip = "*"
rusqlite = { version = "*", features = ["bundled"] }
dirs = "*"

[dev-dependencies]
qrcode = { version = "*", default-features = false }
