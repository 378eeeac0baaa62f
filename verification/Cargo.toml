[package]
name = "nu_plugin_image"
version = "0.1.0"
edition = "2021"
publish = false

[dependencies]
image = { version = "*", default-features = false, features = ["png"] }
imageproc = "*"
ab_glyph = "*"
ansi_colours = "*"
unicode-segmentation = "*"
clap = { version = "*", features = ["derive"] }
crossterm = "*"
termcolor = "*"
