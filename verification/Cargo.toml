[package]
name = "noperson"
version = "0.1.0"
edition = "2021"
publish = false

[dependencies]
anyhow = "=1.0.104"
arc-swap = "=1.9.3"
ash = "=0.38.0"
blake3 = "=1.8.7"
cudarc = { version = "=0.19.10", default-features = false, features = ["std", "driver", "dynamic-loading", "cuda-12080"] }
eframe = { version = "=0.37.0", default-features = false, features = ["default_fonts", "glow", "wgpu_no_default_features", "x11", "wayland"] }
egui-elegance = "=0.17.4"
egui-wgpu = { version = "=0.37.0", default-features = false }

image = { version = "=0.25.10", default-features = false, features = ["png", "jpeg", "webp", "bmp"] }
indicatif = "=0.18.6"
libloading = "=0.9.0"
lzma-rust2 = "=0.25.0"
ort = { version = "=2.0.0-rc.11", default-features = false, features = ["std", "load-dynamic", "cuda", "tensorrt"] }
rfd = "=0.17.2"
serde = { version = "=1.0.229", features = ["derive"] }
serde_json = "=1.0.154"
tar = "=0.4.46"
thiserror = "=2.0.21"
tracing = "=0.1.44"
wgpu = { version = "=30.0.1", default-features = false, features = ["std", "vulkan", "wgsl"] }
wgpu-hal = { version = "=30.0.1", default-features = false, features = ["vulkan"] }
