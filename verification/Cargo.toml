[package]
name = "supernova"
version = "0.1.0"
edition = "2021"
publish = false

[dependencies]
ahash = "0.8"
bitflags = "2"
bytemuck = { version = "1", features = ["derive"] }
crossbeam-channel = "0.5"
egui = "0.29"
egui-wgpu = "0.29"
env_logger = "0.11"
glam = { version = "0.29", features = ["bytemuck", "serde"] }
log = "0.4"
pollster = "0.3"
serde = { version = "1", features = ["derive"] }
wgpu = "22"
winit = "0.30"
