[package]
name = "fractal-core"
version = "0.1.0"
edition = "2021"
publish = false

[dependencies]
glam = { version = "*", features = ["serde"] }
serde = { version = "1", features = ["derive"] }
serde_json = "1"
quick-xml = "*"
log = "0.4"
env_logger = "*"
bytemuck = { version = "1", features = ["derive"] }
eframe = { version = "*", default-features = false, features = ["wgpu", "x11", "default_fonts"] }
