[package]
name = "near_escrow"
version = "0.1.0"
edition = "2021"
publish = false

[dependencies]
sha2 = "0.10"
near-sdk = { version = "4.1", default-features = false }
