[package]
name = "survive"
version = "0.1.0"
edition = "2021"
publish = false

[dependencies]
byteorder = "1"
serde = "1"
serde_cbor = "0.11"
