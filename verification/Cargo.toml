[package]
name = "blocksmash"
version = "0.1.0"
edition = "2021"
publish = false

[dependencies]
bevy = { version = "0.5", default-features = false, features = ["bevy_audio", "bevy_wgpu", "bevy_winit", "render", "png", "mp3", "x11"] }
bevy_rapier2d = "0.9"
rand = "0.8"
