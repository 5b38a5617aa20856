[package]
name = "doom_colormap_generator"
version = "0.1.0"
edition = "2021"
publish = false

[dependencies]
clap = { version = "4", features = ["derive"] }
image = { version = "0.25", default-features = false, features = ["png"] }
palette = { version = "0.7", features = ["serializing"] }
serde = { version = "1", features = ["derive"] }
serde_json = "1"
