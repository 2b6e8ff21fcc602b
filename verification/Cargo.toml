[package]
name = "splitball"
version = "0.1.0"
edition = "2021"
publish = false

[dependencies]
bevy = { version = "=0.16.1", default-features = false, features = ["bevy_asset", "bevy_color", "bevy_core_pipeline", "bevy_gizmos", "bevy_log", "bevy_render", "bevy_sprite", "bevy_state", "bevy_window", "multi_threaded", "png"] }
avian2d = { version = "=0.3.1", default-features = false, features = ["2d", "f32", "parry-f32", "parallel"] }
rand = "=0.9.5"
roxmltree = "=0.20.0"
