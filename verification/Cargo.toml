[package]
name = "nbody_core"
version = "0.1.0"
edition = "2021"
publish = false

[dependencies]
flate2 = "*"
serde = { version = "*", features = ["derive"] }
serde_json = "*"
rand = "*"
glam = "*"
rayon = "*"
bytemuck = { version = "*", features = ["derive"] }
pollster = "*"
futures = "*"
wgpu = "*"
