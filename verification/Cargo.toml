[package]
name = "tether_quart"
version = "0.1.0"
edition = "2021"
publish = false

[dependencies]
anyhow = "=1.0.104"
eframe = { version = "=0.36.2", default-features = false, features = ["default_fonts", "glow", "x11"] }
egui = "=0.36.2"
egui_commonmark = "=0.25.0"
egui_plot = "=0.37.0"
egui-file-dialog = "=0.15.0"
plotters = { version = "=0.3.7", default-features = false, features = ["bitmap_backend", "bitmap_encoder", "ttf", "line_series"] }
ratex-parser = "=0.1.15"
ratex-layout = "=0.1.15"
ratex-svg = { version = "=0.1.15", features = ["embed-fonts"] }
ratex-types = "=0.1.15"
serde = { version = "=1.0.229", features = ["derive"] }
serde_json = "=1.0.154"
