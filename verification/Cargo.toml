[package]
name = "dem2mesh"
version = "0.1.0"
edition = "2021"
publish = false

[dependencies]
png = "*"
meshopt = "*"
wasm-bindgen = "*"
serde-wasm-bindgen = "*"
