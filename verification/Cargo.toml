[package]
name = "sphere_tangents"
version = "0.1.0"
edition = "2021"
publish = false

[dependencies]
nalgebra = "*"
wasm-bindgen = "*"
