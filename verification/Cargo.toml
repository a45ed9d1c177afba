[package]
name = "domino_simulator"
version = "0.1.0"
edition = "2021"
publish = false

[dependencies]
cgmath = "0.18"
eframe = { version = "0.22", default-features = false, features = ["default_fonts", "glow"] }
egui = "0.22"
glow = "0.12"
