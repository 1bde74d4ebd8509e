[package]
name = "emulator"
version = "0.1.0"
edition = "2021"
publish = false

[dependencies]
bincode = "1.3"
chrono = "0.4"
env_logger = "0.10"
error-iter = "0.4"
log = "0.4"
pixels = "0.13"
scan_dir = "0.3"
serde = { version = "1", features = ["derive"] }
serde_json = "1"
winit = { version = "0.28", features = ["serde"] }
winit_input_helper = "0.14"
