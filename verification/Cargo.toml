[package]
name = "lifes_end"
version = "0.1.0"
edition = "2021"
publish = false

[dependencies]
rand = { version = "0.8", features = ["small_rng"] }
bevy = { version = "0.15", default-features = false, features = ["bevy_sprite", "bevy_ui", "bevy_text", "bevy_state", "bevy_render", "bevy_core_pipeline", "bevy_color", "default_font"] }
