[package]
name = "forge_paint"
version = "0.1.0"
edition = "2021"
publish = false

[dependencies]
anyhow = "1"
bvh = { version = "0.11", default-features = false }
bytemuck = { version = "1", features = ["derive"] }
clap = { version = "4", features = ["derive"] }
eframe = { version = "0.31", default-features = false, features = ["default_fonts", "wgpu", "x11"] }
egui = "0.31"
egui-phosphor = "0.9"
egui-snarl = { version = "0.7", features = ["serde"] }
egui-wgpu = { version = "0.31", default-features = false }
env_logger = { version = "0.11", default-features = false }
exr = "1.74"
glam = "0.29"
gltf = "1.4"
half = { version = "2", features = ["bytemuck"] }
image = { version = "0.25", default-features = false, features = ["png", "jpeg", "hdr"] }
log = "0.4"
nalgebra = "0.33"
rayon = "1"
serde = { version = "1", features = ["derive"] }
wgpu = { version = "24", default-features = false, features = ["wgsl", "vulkan-portability"] }
