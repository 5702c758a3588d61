[package]
name = "camera_rig"
version = "0.1.0"
edition = "2021"
publish = false

[dependencies]
bevy = { version = "=0.12.1", default-features = false, features = ["serialize"] }
serde = { version = "=1.0.229", features = ["derive"] }
