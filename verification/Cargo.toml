[package]
name = "aabb_ray"
version = "0.1.0"
edition = "2021"
publish = false

[dependencies]
nalgebra = "*"
wasm-bindgen = "*"
