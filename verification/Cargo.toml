[package]
name = "twelve_knights_vigil"
version = "0.1.0"
edition = "2021"
publish = false

[dependencies]
rand = "=0.8.8"
bevy = { version = "=0.7.0", default-features = false, features = ["bevy_winit", "render", "png", "x11"] }
egui = "=0.18.1"
serde_json = "=1.0.154"
darling = "=0.13.4"
bevy_egui = { version = "=0.14.0", default-features = false }
