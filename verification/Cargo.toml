[package]
name = "rusterio"
version = "0.1.0"
edition = "2021"
publish = false

[dependencies]
num = "*"
num-traits = "*"
itertools = "*"
geo = "*"
rayon = "*"
gdal = "*"
proj = "*"
serde = { version = "*", features = ["derive"] }
thiserror = "*"
self_cell = "*"
