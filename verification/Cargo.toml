[package]
name = "snake_core"
version = "0.1.0"
edition = "2021"
publish = false

[dependencies]
line_drawing = "*"
rand = "0.8"
