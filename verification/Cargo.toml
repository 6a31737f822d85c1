[package]
name = "promptpay"
version = "0.1.0"
edition = "2021"
publish = false

[dependencies]
qrcode = "*"
image = "*"
rust_decimal = "*"

[dev-dependencies]
crc = "*"
