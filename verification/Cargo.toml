[package]
name = "sd_importer"
version = "0.1.0"
edition = "2021"
publish = false

[dependencies]
kamadak-exif = "*"
walkdir = "*"
rayon = "*"
indicatif = "*"
