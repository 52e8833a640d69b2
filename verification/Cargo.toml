[package]
name = "rubik_engine"
version = "0.1.0"
edition = "2021"
publish = false

[dependencies]
bevy = { version = "0.15", default-features = false, features = ["bevy_asset", "bevy_core_pipeline", "bevy_gltf", "bevy_pbr", "bevy_render", "bevy_scene", "bevy_state", "bevy_window", "bevy_winit", "x11"] }
bevy_panorbit_camera = { version = "0.22", default-features = false }
bevy_tweening = { version = "0.12", default-features = false }
