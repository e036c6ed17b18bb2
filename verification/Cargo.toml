[package]
name = "hle_render"
version = "0.1.0"
edition = "2021"
publish = false

[dependencies]
bytemuck = "1"
cgmath = "0.18"
image = { version = "0.24", default-features = false, features = ["png"] }
imgui = "0.11"
tracing = "0.1"
wgpu = "0.16"
winit = "0.28"
