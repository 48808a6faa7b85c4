[package]
name = "vellum_app"
version = "0.1.0"
edition = "2021"
publish = false

[dependencies]
anyhow = "1"
arboard = { version = "3", default-features = false }
egui = { version = "*", default-features = false }
env_logger = { version = "0.11", default-features = false }
image = { version = "0.25", default-features = false }
log = "0.4"
muda = { version = "*", default-features = false }
serde = { version = "1", features = ["derive"] }
serde_json = "1"
ureq = { version = "3", default-features = false }
winit = { version = "0.30", default-features = false, features = ["x11", "rwh_06"] }
