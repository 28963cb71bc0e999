[package]
name = "rib-core"
version = "0.1.0"
edition = "2021"
publish = false

[dependencies]
serde = { version = "=1.0.229", features = ["derive"] }
wasm-wave = "=0.263.0"
