[package]
name = "wasmux"
version = "0.1.0"
edition = "2021"
publish = false

[dependencies]
libc = "=0.2.191"
wasmi = { version = "=2.0.0", features = ["portable-dispatch"] }
