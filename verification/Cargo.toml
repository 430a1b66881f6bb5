[package]
name = "sekio-gui"
version = "0.1.0"
edition = "2021"
publish = false

[dependencies]
anyhow = "=1.0.104"
clap = { version = "=4.6.7", features = ["derive"] }
eframe = { version = "=0.34.3", default-features = false, features = ["glow", "x11", "default_fonts"] }
egui = "=0.34.3"
global-hotkey = "=0.7.0"
image = { version = "=0.25.10", default-features = false, features = ["png"] }
rfd = { version = "=0.17.2", default-features = false, features = ["xdg-portal"] }
serde = { version = "=1.0.229", features = ["derive"] }
signal-hook = "0.3"
toml = "=1.1.8"
