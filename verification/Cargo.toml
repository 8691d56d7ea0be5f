[package]
name = "grid_game"
version = "0.1.0"
edition = "2021"
publish = false

[dependencies]
walkdir = "*"
piston = "*"
piston2d-graphics = "*"
piston2d-opengl_graphics = "*"
pistoncore-glutin_window = "*"
