[package]
name = "adventure_sim"
version = "0.1.0"
edition = "2021"
publish = false

[dependencies]
amethyst = { version = "0.15", default-features = false, features = ["renderer", "empty"] }
nalgebra = "0.19"
rand = "0.7"
ron = "0.5"
serde = { version = "1", features = ["derive"] }
