[package]
name = "miniterm"
version = "0.1.0"
edition = "2021"
publish = false

[dependencies]
env_logger = "0.11"
fontdue = "0.9"
log = "0.4"
portable-pty = "0.8"
softbuffer = "0.4"
winit = "0.30"
