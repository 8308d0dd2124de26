[package]
name = "band_bridge"
version = "0.1.0"
edition = "2021"
publish = false

[dependencies]
sha3 = "*"
libsecp256k1 = "*"

[dev-dependencies]
borsh = "*"
