[package]
name = "powder"
version = "0.1.0"
edition = "2021"
publish = false

[dependencies]
rand = "0.8"
line_drawing = "1.0"
pixels = "0.9"
winit = "0.26"
winit_input_helper = "0.11"
env_logger = "0.9"
log = "0.4"
