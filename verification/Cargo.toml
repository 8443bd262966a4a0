[package]
name = "voxel_mesh"
version = "0.1.0"
edition = "2021"
publish = false

[dependencies]
dolly = "=0.4.3"
futures-lite = "=1.13.0"
glam = "=0.25.0"
image = "=0.24.9"
wgpu = "=0.14.2"
winit = "=0.28.7"
