[package]
name = "sdf_render"
version = "0.1.0"
edition = "2021"
publish = false

[dependencies]
glium = "0.32"
image = { version = "0.24", default-features = false, features = ["png"] }
