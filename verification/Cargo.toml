[package]
name = "eren"
version = "0.1.0"
edition = "2021"
publish = false

[dependencies]
image = { version = "0.25", default-features = false, features = ["png"] }
gltf = "1"
glam = "0.30"
bytemuck = { version = "1", features = ["derive"] }
pollster = "0.4"
winit = "0.30"
ash = "0.38"
ash-window = "0.13"
wgpu = "25"
