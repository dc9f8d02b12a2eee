[package]
name = "level_editor"
version = "0.1.0"
edition = "2021"
publish = false

[dependencies]
eframe = { version = "=0.19.0", default-features = false, features = ["default_fonts", "glow"] }
image = { version = "=0.24.9", default-features = false, features = ["bmp", "jpeg", "png", "webp"] }
rfd = { version = "0.12", default-features = false, features = ["xdg-portal"] }
