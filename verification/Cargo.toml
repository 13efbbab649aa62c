[package]
name = "raydium"
version = "0.1.0"
edition = "2021"
publish = false

[dependencies]
anyhow = "1"
eframe = { version = "0.22", default-features = false, features = ["default_fonts", "glow"] }
env_logger = "0.10"
image = { version = "0.24", default-features = false }
log = "0.4"
poll-promise = "0.3"
rand = "0.8"
rayon = "1"
