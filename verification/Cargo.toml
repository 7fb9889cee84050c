[package]
name = "contracts"
version = "0.1.0"
edition = "2021"
publish = false

[dependencies]
anyhow = "1"
thiserror = "1"
oasis-cbor = "=0.2.1"
io-context = "=0.2.0"
sha2 = "=0.10.9"
