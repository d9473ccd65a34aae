[package]
name = "chip_8"
version = "0.1.0"
edition = "2021"
publish = false

[dependencies]
rand = { version = "0.8", features = ["small_rng"] }
gl = "0.14"
glutin = "0.19"
cgmath = "0.17"
