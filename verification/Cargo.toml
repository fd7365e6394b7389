[package]
name = "authcore"
version = "0.1.0"
edition = "2021"
publish = false

[dependencies]
argon2 = "=0.6.0"
base64 = "=0.23.1"
chrono = "=0.4.45"
getrandom = "=0.4.3"
sha2 = "=0.11.0"
url = "=2.5.8"
uuid = { version = "=1.27.0", features = ["v4"] }
