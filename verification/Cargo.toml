[package]
name = "noir_pallets"
version = "0.1.0"
edition = "2021"
publish = false

[dependencies]
cosmos-sdk-proto = { version = "0.24", default-features = false }
solana-sdk = { version = "~2.1", default-features = false, features = ["full"] }
sp-core = { version = "43", default-features = false }
sp-runtime = { version = "49", default-features = false }
