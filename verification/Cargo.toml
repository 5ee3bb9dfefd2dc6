[package]
name = "raycam"
version = "0.1.0"
edition = "2021"
publish = false

[dependencies]
gl = "*"
nalgebra = "0.32"
ncollide3d = "0.33"
sdl2 = "*"
