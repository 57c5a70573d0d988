[package]
name = "gaia_engine"
version = "0.1.0"
edition = "2021"
publish = false

[dependencies]
bincode = "1.3"
rocksdb = "*"
serde_cbor = "0.11"
serde_json = "1"
