[package]
name = "eth_primitives"
version = "0.1.0"
edition = "2021"
publish = false

[dependencies]
rustc-hex = "2"
uint = "0.8"
serde = "1"
ethereum-types-serialize = "*"
num-traits = "0.2"

[dev-dependencies]
serde_json = "1"
