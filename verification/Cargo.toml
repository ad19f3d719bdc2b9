[package]
name = "wasm_compiler"
version = "0.1.0"
edition = "2021"
publish = false

[dependencies]
log = "=0.4.34"
parking_lot = "=0.12.5"
wat = "=1.262.0"

[dev-dependencies]
serde_json = "=1.0.154"
