[package]
name = "lora"
version = "0.1.0"
edition = "2021"
publish = false

[dependencies]
image = { version = "=0.25.10", default-features = false, features = ["png", "jpeg", "gif", "bmp"] }
bytemuck = { version = "=1.25.2", features = ["derive"] }
chrono = "=0.4.45"
clap = { version = "=4.6.7", features = ["derive"] }
crossbeam = "=0.8.5"
jsonschema = { version = "=0.60.2", default-features = false }
mlua = { version = "=0.12.2", features = ["lua54", "vendored"] }
pollster = "=1.0.1"
rapier2d = "=0.36.1"
rodio = { version = "=0.23.0", default-features = false, features = ["flac", "mp3", "mp4", "vorbis", "wav"] }
serde = { version = "=1.0.229", features = ["derive"] }
serde_json = "=1.0.154"
wgpu = "=30.0.1"
winit = "=0.30.13"
