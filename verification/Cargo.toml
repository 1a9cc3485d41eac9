[package]
name = "tiff2jp2"
version = "0.1.0"
edition = "2021"
publish = false

[dependencies]
anyhow = "1"
clap = { version = "4", features = ["derive"] }
libc = "0.2"
openjpeg-sys = "1"
rayon = "1"
tiff = "0.9"
walkdir = "2"
