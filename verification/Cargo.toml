[package]
name = "asterism"
version = "0.2.0"
edition = "2021"
publish = false

[dependencies]
image = { version = "=0.25.10", default-features = false, features = ["png", "jpeg", "webp"] }
toml = "=0.8.23"
serde = { version = "=1.0.229", features = ["derive"] }
log = "=0.4.35"
thiserror = "=2.0.21"
bytemuck = { version = "=1.25.2", features = ["derive"] }
pollster = "=0.4.0"
wgpu = "=24.0.5"
winit = "=0.30.13"
cosmic-text = "=0.12.1"
