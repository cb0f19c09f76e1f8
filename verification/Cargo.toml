[package]
name = "hex_fps"
version = "0.1.0"
edition = "2021"
publish = false

[dependencies]
rapier3d = "0.22"
