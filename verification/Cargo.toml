[package]
name = "drawpanel"
version = "0.1.0"
edition = "2021"
publish = false

[dependencies]
geo = "*"
serde = { version = "1", features = ["derive"] }
serde_json = "1"
egui = "*"
fltk = "1"
