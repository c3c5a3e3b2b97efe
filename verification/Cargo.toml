[package]
name = "crc32"
version = "0.1.0"
edition = "2021"
publish = false

[dev-dependencies]
crc32fast = "*"
rand = "0.8"
