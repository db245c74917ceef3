[package]
name = "duo_auth"
version = "0.1.0"
edition = "2021"
publish = false

[dependencies]
base64 = "0.22"
chrono = "0.4"
hmac = "*"
log = "0.4"
serde_json = "1"
serde_urlencoded = "0.7"
sha2 = "*"
urlencoding = "2"
uuid = { version = "1", features = ["v4"] }
worker = "*"
