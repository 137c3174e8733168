[package]
name = "sebaka"
version = "0.1.0"
edition = "2021"
publish = false

[dependencies]
bevy = { version = "=0.8.1", default-features = false, features = ["animation", "bevy_asset", "bevy_scene", "bevy_winit", "render", "png", "hdr", "x11", "filesystem_watcher"] }
bevy_hanabi = "0.4"
bevy_kira_audio = "=0.12.0"
bevy_pancam = "=0.6.1"
bevy_prototype_debug_lines = "=0.8.1"
heron = { version = "=4.3.0", features = ["2d"] }
