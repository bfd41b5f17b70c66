[package]
name = "endless_chase"
version = "0.1.0"
edition = "2021"
publish = false

[dependencies]
amethyst = { version = "0.15", default-features = false, features = ["audio", "renderer", "vulkan"] }
log = "0.4"
nalgebra = "0.19"
rand = "0.7"
serde = { version = "1", features = ["derive"] }
shrev = "1.1"
