[package]
name = "host_bridge"
version = "0.1.0"
edition = "2021"
publish = false

[dependencies]
num-bigint = "*"
hex = "*"
bs58 = "*"
tiny-keccak = { version = "*", features = ["keccak"] }
ethabi = "*"
serde_json = "*"
