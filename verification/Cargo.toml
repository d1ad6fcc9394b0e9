[package]
name = "hover_interaction"
version = "0.1.0"
edition = "2021"
publish = false

[dependencies]
amethyst = { version = "=0.15.3", default-features = false, features = ["empty"] }
ncollide3d = "=0.21.0"
shrev = "=1.1.3"
