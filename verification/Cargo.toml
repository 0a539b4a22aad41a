[package]
name = "blockledger"
version = "0.1.0"
edition = "2021"
publish = false

[dependencies]
sha2 = "0.10"
secp256k1 = "0.29"
rand = "0.8"
chrono = "0.4"
