[package]
name = "rs_sdk"
version = "0.1.0"
edition = "2021"
publish = false

[dependencies]
bs58 = "*"
sha2 = "*"
ripemd = "*"
wasm-bindgen = "*"
