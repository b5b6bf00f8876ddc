[package]
name = "ramesh"
version = "0.1.0"
edition = "2021"
publish = false

[dependencies]
fastpbkdf2 = "0.1"
hmac-sha1 = "*"
hex = "0.4"
rustc-serialize = "0.3"
rayon = "1"
serde_json = "1"
