[package]
name = "rockquid"
version = "0.1.0"
edition = "2021"
publish = false

[dependencies]
bevy = { version = "0.8", default-features = false, features = ["render", "bevy_asset", "bevy_winit", "png", "x11"] }
bevy_prototype_debug_lines = "0.8"
pathfinding = "3.0"
rand = "0.8"
