[package]
name = "galactic_coords"
version = "0.1.0"
edition = "2021"
publish = false

[dependencies]
nalgebra = "*"
scilib = "*"
serde = { version = "*", features = ["derive"] }
