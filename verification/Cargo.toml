[package]
name = "pocket_character"
version = "0.1.0"
edition = "2021"
publish = false

[dependencies]
anyhow = "1.0.104"
env_logger = "0.11.11"
glam = "0.34.2"
log = "0.4.35"
