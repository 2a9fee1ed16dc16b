[package]
name = "archipelago_game"
version = "0.1.0"
edition = "2021"
publish = false

[dependencies]
bevy = { version = "=0.19.1", default-features = false, features = ["std", "bevy_ui", "bevy_ui_render", "bevy_text", "bevy_sprite", "bevy_sprite_render", "bevy_render", "bevy_core_pipeline", "bevy_asset", "bevy_window", "bevy_log", "default_font", "png"] }
image = { version = "=0.25.10", default-features = false, features = ["png"] }
