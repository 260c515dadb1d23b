[package]
name = "web5claims"
version = "0.1.0"
edition = "2021"
publish = false

[dependencies]
sha2 = "=0.10.9"
hex = "=0.4.3"
uuid = { version = "=1.27.0", features = ["v4"] }
chrono = "=0.4.45"
base64 = "=0.22.1"
flate2 = "=1.1.10"
