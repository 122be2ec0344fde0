[package]
name = "tinkerforge"
version = "0.1.0"
edition = "2021"
publish = false

[dependencies]
hmac = "*"
sha1 = "*"
rand = "*"
