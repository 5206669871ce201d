[package]
name = "frustum"
version = "0.1.0"
edition = "2021"
publish = false

[dependencies]
euclid = { version = "0.20", features = ["serde"] }
rayon = "1"
serde = { version = "1", features = ["derive"] }
