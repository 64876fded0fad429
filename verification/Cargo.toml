[package]
name = "gpu_corrections"
version = "0.1.0"
edition = "2021"
publish = false

[dependencies]
bytemuck = "*"
flume = "*"
pollster = "*"
wgpu = "*"
