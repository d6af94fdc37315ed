[package]
name = "simplified3d"
version = "0.2.0"
edition = "2021"
publish = false

[dependencies]
image = { version = "=0.25.10", default-features = false, features = ["png"] }
serde = { version = "=1.0.229", features = ["derive"] }
serde_json = "=1.0.154"
eframe = { version = "0.29", default-features = false, features = ["glow", "default_fonts", "x11"] }
egui = "0.29"
