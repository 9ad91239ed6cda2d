[package]
name = "rgba_bmp"
version = "0.1.0"
edition = "2021"
publish = false

[dev-dependencies]
bmp = "=0.5.0"
