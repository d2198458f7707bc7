[package]
name = "engine"
version = "0.1.0"
edition = "2021"
publish = false

[dependencies]
bytemuck = { version = "=1.25.2", features = ["derive"] }
pollster = "=0.4.0"
wgpu = "=28.0.0"
winit = "=0.30.13"
