[package]
name = "spline_playback"
version = "0.1.0"
edition = "2021"
publish = false

[dependencies]
splines = "*"
