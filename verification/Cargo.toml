[package]
name = "handwriting"
version = "0.1.0"
edition = "2021"
publish = false

[dependencies]
bytemuck = { version = "=1.25.2", features = ["derive"] }
unicode-segmentation = "=1.12.0"
unicode-script = "=0.5.9"
harfrust = "=0.15.0"
read-fonts = "=0.46.0"
kurbo = "=0.13.1"
noise = "=0.9.0"
rand = "=0.8.8"
rand_pcg = "=0.3.1"
serde = { version = "=1.0.229", features = ["derive"] }
thiserror = "=1.0.69"
anyhow = "=1.0.104"
log = "=0.4.35"
env_logger = "=0.11.11"
android_logger = "=0.15.1"
android-activity = "=0.6.1"
pollster = "=1.0.1"
raw-window-handle = "=0.6.2"
wgpu = { version = "=30.0.1", default-features = false, features = ["std", "vulkan", "wgsl", "glsl"] }
naga = "=30.0.1"
cbindgen = "=0.29.4"
