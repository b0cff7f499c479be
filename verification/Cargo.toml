[package]
name = "wgsl_to_msl"
version = "0.1.0"
edition = "2021"
publish = false

[dependencies]
naga = { version = "*", features = ["wgsl-in", "msl-out"] }
