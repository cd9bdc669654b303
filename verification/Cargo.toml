[package]
name = "starcom"
version = "0.2.0"
edition = "2021"
publish = false

[dependencies]
alacritty_terminal = { version = "=0.26.0", default-features = false }
anyhow = "=1.0.104"
blade-egui = "=0.9.0"
blade-graphics = "=0.9.0"
egui = "=0.34.3"
egui-winit = { version = "=0.34.3", default-features = false, features = ["clipboard", "x11"] }
env_logger = { version = "0.11", default-features = false }
log = "0.4"
png = "0.18"
winit = { version = "0.30", default-features = false, features = ["x11", "rwh_06"] }
