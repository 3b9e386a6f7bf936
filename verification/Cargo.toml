[package]
name = "quilt_painter"
version = "0.1.0"
edition = "2021"
publish = false

[dependencies]
sha2 = "*"
image = "*"
nalgebra = "*"
rayon = "*"
clap = { version = "*", features = ["derive"] }
