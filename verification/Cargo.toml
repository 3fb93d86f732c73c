[package]
name = "pathtracer"
version = "0.1.0"
edition = "2021"
publish = false

[dependencies]
wgpu = "0.12"
pollster = "0.2"
bytemuck = "1"
rand = "0.8"
clap = "2"
image = "0.24"
