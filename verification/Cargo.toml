[package]
name = "pixelgrid"
version = "0.1.0"
edition = "2021"
publish = false

[dependencies]
image = "0.24"
serde = { version = "1", features = ["derive"] }
toml = "0.8"
log = "0.4"
anyhow = "1"
flexi_logger = "0.27"
winit = "0.28"
winit_input_helper = "0.14"
pixels = "0.13"
