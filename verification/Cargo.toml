[package]
name = "breakout"
version = "0.1.0"
edition = "2021"
publish = false

[dependencies]
gl = "*"
glam = "*"
image = { version = "*", default-features = false, features = ["png", "jpeg"] }
sdl2 = "*"
