[package]
name = "skerry"
version = "0.1.0"
edition = "2021"
publish = false

[dependencies]
csv = "1"
pulldown-cmark = { version = "0.12", default-features = false }
url = "2"
lsp-types = "0.95"
crossterm = "0.28"
ratatui = "0.29"
eframe = { version = "0.30", default-features = false, features = ["default_fonts", "glow", "x11"] }
egui_extras = { version = "0.30", default-features = false }
rfd = { version = "0.15", default-features = false, features = ["xdg-portal", "tokio"] }
