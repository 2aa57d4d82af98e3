[package]
name = "virtual_joystick"
version = "0.1.0"
edition = "2021"
publish = false

[dependencies]
anyhow = "1"
evdev = "0.12"
eframe = { version = "0.27", default-features = false, features = ["glow", "default_fonts"] }
