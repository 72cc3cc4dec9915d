[package]
name = "aestoken"
version = "0.1.0"
edition = "2021"
publish = false

[dependencies]
aes = "*"
base64 = "*"
flate2 = "*"
