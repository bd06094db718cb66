[package]
name = "lightning_invoice"
version = "0.1.0"
edition = "2021"
publish = false

[dependencies]
bech32 = "0.9"
bitcoin_hashes = "*"
secp256k1 = { version = "*", features = ["recovery"] }
