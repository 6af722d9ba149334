[package]
name = "pool_status"
version = "0.1.0"
edition = "2021"
publish = false

[dependencies]
bs58 = "0.5"
sha2 = "0.10"
futures-util = "0.3"
