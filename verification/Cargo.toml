[package]
name = "pxlha"
version = "0.1.0"
edition = "2021"
publish = false

[dependencies]
colors-transform = "=0.2.11"
wayland-client = "=0.29.5"
wayland-protocols = { version = "=0.29.5", features = ["client", "unstable_protocols"] }
memmap2 = "=0.9.12"
nix = "=0.26.4"
image = { version = "=0.25.10", default-features = false }
hass-rs = "=0.2.0"
async-std = { version = "=1.13.2", features = ["attributes"] }
serde = { version = "=1.0.229", features = ["derive"] }
serde_json = "=1.0.154"
dotenv = "=0.15.0"
env_logger = "=0.11.11"
log = "=0.4.34"
