[package]
name = "locomotion"
version = "0.1.0"
edition = "2021"
publish = false

[dependencies]
avian3d = { version = "=0.3.1", default-features = false, features = ["3d", "f32", "parry-f32"] }
bevy = { version = "=0.16.1", default-features = false, features = ["std", "async_executor", "multi_threaded", "bevy_asset", "bevy_color", "bevy_core_pipeline", "bevy_log", "bevy_pbr", "bevy_render", "bevy_window", "ktx2", "tonemapping_luts", "zstd"] }
