[package]
name = "star_render"
version = "0.1.0"
edition = "2021"
publish = false

[dependencies]
anyhow = "1"
bytemuck = { version = "1", features = ["derive"] }
glam = "0.24"
pixels = "0.13"
winit = "0.28"
