[package]
name = "rust_music"
version = "0.1.0"
edition = "2021"
publish = false

[dependencies]
gl = "*"
imgui = "*"
imgui-opengl-renderer = "*"
imgui-sdl2 = "*"
midir = "*"
sdl2 = "*"
