[package]
name = "code_editor"
version = "0.1.0"
edition = "2021"
publish = false

[dependencies]
eframe = { version = "=0.36.2", default-features = false, features = ["default_fonts", "glow", "wayland", "x11"] }
egui = "=0.36.2"
egui_dock = "=0.21.1"
egui_extras = { version = "=0.36.2", features = ["svg"] }
egui_ltreeview = "=0.9.0"
tokio = { version = "=1.54.1", features = ["fs", "rt-multi-thread", "macros", "io-util", "sync"] }
