[package]
name = "ecs_core"
version = "0.1.0"
edition = "2021"
publish = false

[dependencies]
gl = "0.14"
glam = "0.24"
glutin = "0.30"
glutin-winit = "0.3"
image = "0.24"
raw-window-handle = "0.5"
tobj = "3"
winit = "0.28"
