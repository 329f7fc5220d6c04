[package]
name = "vpe"
version = "0.1.0"
edition = "2021"
publish = false

[dependencies]
ash = "=0.37.3"
glfw = { version = "=0.63.0", default-features = false, features = ["vulkan"] }
nalgebra = "=0.35.0"
