[package]
name = "phase"
version = "0.1.0"
edition = "2021"
publish = false

[dependencies]
bytemuck = { version = "1", features = ["derive"] }
eframe = { version = "0.31", default-features = false, features = ["wgpu", "default_fonts", "wayland", "x11"] }
egui = "0.31"
egui-wgpu = "0.31"
env_logger = "0.11"
instant = "0.1"
log = "0.4"
thiserror = "2"
wasm-bindgen-futures = "0.4"
web-sys = "0.3"
wgpu = "24"
