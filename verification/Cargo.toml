[package]
name = "ncr"
version = "0.1.0"
edition = "2021"
publish = false

[dependencies]
aes = "0.8"
aes-gcm = "0.10"
base64 = "0.21"
cfb8 = "0.8"
cipher = { version = "0.4", features = ["alloc", "block-padding"] }
hmac = "0.12"
pbkdf2 = "0.12"
rand = "0.8"
sha1 = "0.10"
