[package]
name = "wdmview"
version = "0.1.0"
edition = "2021"
publish = false

[dependencies]
anyhow = "=1.0.104"
bevy_color = "=0.20.0"
bytemuck = { version = "=1.25.2", features = ["derive"] }
console_error_panic_hook = "0.1"
console_log = "1"
env_logger = "=0.11.11"
flume = "0.11"
glam = "=0.34.1"
glyphon = "=0.10.0"
instant = "=0.1.13"
js-sys = "0.3"
log = "=0.4.34"
once_cell = "1"
pollster = "=1.0.1"
serde = { version = "=1.0.229", features = ["derive"] }
serde_json = "=1.0.154"
wasm-bindgen = "0.2"
wasm-bindgen-futures = "0.4"
wgpu = "=28.0.0"
winit = "=0.30.13"
