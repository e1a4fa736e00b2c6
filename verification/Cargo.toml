[package]
name = "chess_engine"
version = "0.1.0"
edition = "2021"
publish = false

[dependencies]
bevy = { version = "=0.7.0", default-features = false, features = ["render", "bevy_winit", "x11"] }
bevy_egui = { version = "=0.14.0", default-features = false }
bevy-inspector-egui = { version = "=0.11.0", default-features = false }
bevy_prototype_lyon = "=0.5.0"
bevy_svg = { version = "=0.7.0", default-features = false, features = ["2d"] }
darling = "=0.13.4"
itertools = "=0.10.5"
