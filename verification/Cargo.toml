[package]
name = "pixel_core"
version = "0.1.0"
edition = "2021"
publish = false

[dependencies]
y4m = "*"
bitstream-io = "*"
