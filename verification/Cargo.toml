[package]
name = "raycaster"
version = "0.1.0"
edition = "2021"
publish = false

[dependencies]
rustc-hash = "1.1"
rand = "0.8"
rayon = "1"
png = "0.17"
log = "0.4"
env_logger = "0.10"
pixels = "0.11"
tao = "0.15"
