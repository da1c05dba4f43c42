[package]
name = "terrain_mesh"
version = "0.1.0"
edition = "2021"
publish = false

[dependencies]
rand = "0.8"
bevy = { version = "0.14", default-features = false }
bevy_rapier3d = { version = "0.27", default-features = false, features = ["dim3"] }
