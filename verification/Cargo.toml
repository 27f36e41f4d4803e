[package]
name = "animation"
version = "0.1.0"
edition = "2021"
publish = false

[dependencies]
glam = { version = "=0.34.1", features = ["scalar-math"] }
gltf = { version = "*", default-features = false, features = ["utils", "names"] }
num-traits = "=0.2.19"
