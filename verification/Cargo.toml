[package]
name = "pane"
version = "0.1.0"
edition = "2021"
publish = false

[dependencies]
rusttype = "0.7"
piston2d-graphics = "0.30"
