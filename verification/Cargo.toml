[package]
name = "linear_memory"
version = "0.1.0"
edition = "2021"
publish = false

[dependencies]
memory_units = "0.3"
parity-wasm = "0.41"
