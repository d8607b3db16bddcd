[package]
name = "ogawa"
version = "0.1.0"
edition = "2021"
publish = false

[dependencies]
byteorder = "1"
half = "1"
memmap = "0.7"
anyhow = "1"
