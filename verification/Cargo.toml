[package]
name = "glorious"
version = "0.1.0"
edition = "2021"
publish = false

[dependencies]
ref_filter_map = "*"
sdl2 = "*"
sdl2_image = "*"
sdl2_ttf = "*"
