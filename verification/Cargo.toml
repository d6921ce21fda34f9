[package]
name = "spacelab"
version = "0.1.0"
edition = "2021"
publish = false

[dependencies]
bevy = { version = "=0.8.1", default-features = false, features = ["bevy_asset", "bevy_winit", "bevy_render", "bevy_core_pipeline", "bevy_sprite", "bevy_text", "bevy_ui", "x11"] }
bevy_easings = "=0.8.1"
bevy_egui = { version = "=0.15.1", default-features = false, features = ["default_fonts"] }
bevy-inspector-egui = { version = "=0.12.1", default-features = false }
bevy_pancam = "=0.6.1"
bevy_prototype_lyon = "=0.6.0"
egui_extras = "=0.18.0"
heron = { version = "=4.3.0", features = ["2d"] }
petgraph = "=0.6.5"
rand = "=0.8.8"
