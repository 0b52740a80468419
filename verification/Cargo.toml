[package]
name = "sss"
version = "0.1.0"
edition = "2021"
publish = false

[dependencies]
anyhow = "1"
bytemuck = { version = "1", features = ["derive"] }
ctrlc = "3"
cudarc = { version = "0.17", default-features = false, features = ["std", "driver", "nvrtc", "cuda-12080", "dynamic-loading"] }
env_logger = { version = "0.11", default-features = false }
glam = "0.30"
image = { version = "0.25", default-features = false, features = ["png"] }
log = "0.4"
mimalloc = "0.1"
pixels = "0.15"
rand = "0.9"
serde = { version = "1", features = ["derive"] }
serde_yaml = "0.9"
winit = { version = "0.30", default-features = false, features = ["x11", "rwh_06"] }
