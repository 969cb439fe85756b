[package]
name = "ink_narrative"
version = "0.1.0"
edition = "2021"
publish = false

[dependencies]
inkling = "=0.12.5"
bevy = { version = "=0.8.1", default-features = false, features = ["bevy_asset", "bevy_winit", "render", "png", "x11"] }
bevy_asset_loader = "=0.12.1"
bevy_ecs_ldtk = "=0.4.0"
heron = { version = "=4.3.0", features = ["2d"] }
