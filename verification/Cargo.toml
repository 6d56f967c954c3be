[package]
name = "qd-varallax"
version = "0.1.0"
edition = "2021"
publish = false

[dependencies]
ahash = "=0.8.12"
image = { version = "0.25", default-features = false, features = ["png", "jpeg"] }
rfd = "0.15"
