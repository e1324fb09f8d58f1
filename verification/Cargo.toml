[package]
name = "mpegts"
version = "0.1.0"
edition = "2021"
publish = false

[dependencies]
byteorder = "1"

[dev-dependencies]
hex = "0.4"
