[package]
name = "renzora"
version = "0.1.0"
edition = "2021"
publish = false

[dependencies]
bevy = { version = "=0.19.1", default-features = false, features = ["std", "bevy_asset", "bevy_camera", "bevy_image", "bevy_light", "bevy_mesh", "bevy_sprite", "bevy_text", "bevy_ui", "bevy_window", "bevy_world_serialization", "gamepad", "keyboard", "mouse"] }
serde = { version = "=1.0.229", features = ["derive"] }
toml = "=1.1.8"
ron = "=0.12.3"
