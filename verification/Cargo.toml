[package]
name = "note_painter"
version = "0.1.0"
edition = "2021"
publish = false

[dependencies]
gl = "0.14"
glfw = "*"
hound = "3.5"
image = { version = "0.25", default-features = false, features = ["png"] }
nalgebra = "0.33"
rfd = "0.15"
rodio = { version = "0.20", default-features = false }
spin_sleep = "1"
