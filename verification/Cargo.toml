[package]
name = "sn_transfers"
version = "0.1.0"
edition = "2021"
publish = false

[dependencies]
threshold_crypto = "0.4"
bincode = "1"

[dev-dependencies]
rand = "0.7"
