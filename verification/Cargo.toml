[package]
name = "visible_region"
version = "0.1.0"
edition = "2021"
publish = false

[dependencies]
amethyst = { version = "0.15.0", default-features = false, features = ["animation", "renderer", "tiles", "empty"] }
serde = { version = "1", features = ["derive"] }
