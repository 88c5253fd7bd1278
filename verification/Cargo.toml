[package]
name = "pasture_panda"
version = "0.1.0"
edition = "2021"
publish = false

[dependencies]
image = "0.25.10"
img-parts = "*"
webp = { version = "0.3", default-features = false }
serde = { version = "1", features = ["derive"] }
rayon = "1"
