[package]
name = "tiled_wgpu"
version = "0.1.0"
edition = "2021"
publish = false

[dependencies]
image = { version = "*", default-features = false, features = ["png"] }
nalgebra = "*"
parry2d = "*"
rayon = "*"
tiled = { version = "0.9", default-features = false }
wgpu = "*"
