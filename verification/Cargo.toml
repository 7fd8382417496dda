[package]
name = "cubic_render"
version = "0.1.0"
edition = "2021"
publish = false

[dependencies]
png = "=0.18.1"
serde = { version = "=1.0.229", features = ["derive"] }
serde_json = "=1.0.154"
bytemuck = { version = "=1.25.2", features = ["derive"] }
tracing = "=0.1.44"
wgpu = "=30.0.1"
winit = "=0.30.13"
egui = "=0.37.0"
egui-wgpu = "=0.37.0"
