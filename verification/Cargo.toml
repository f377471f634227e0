[package]
name = "bevy_simplesave"
version = "0.1.0"
edition = "2021"
publish = false

[dependencies]
ron = "*"
directories = "*"
serde = { version = "1", features = ["derive"] }
bevy_app = "*"
bevy_ecs = "*"
tempfile = "3"
