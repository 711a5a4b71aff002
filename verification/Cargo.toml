[package]
name = "shooter_core"
version = "0.1.0"
edition = "2021"
publish = false

[dependencies]
rand = "0.8"
bevy = { version = "0.5", default-features = false, features = ["render", "bevy_winit", "bevy_wgpu", "png", "x11"] }
