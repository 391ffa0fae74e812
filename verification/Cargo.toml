[package]
name = "perlin_noise"
version = "0.1.0"
edition = "2021"
publish = false

[dependencies]
rand = "0.8"
rand_xoshiro = "0.6"
image = { version = "0.24", default-features = false, features = ["png"] }
