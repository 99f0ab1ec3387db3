[package]
name = "tower_genesis"
version = "0.1.0"
edition = "2021"
publish = false

[dependencies]
hex = "0.4"
byteorder = "1"
