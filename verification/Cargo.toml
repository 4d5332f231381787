[package]
name = "primitives"
version = "0.1.0"
edition = "2021"
publish = false

[dependencies]
ssz_rs = "0.9.0"
snowbridge-milagro-bls = "*"
hex = "0.4.3"
serde = "1"
eyre = "0.6"
ethers-core = { version = "*", default-features = false }
