[package]
name = "gfx"
version = "0.1.0"
edition = "2021"
publish = false

[dependencies]
rusttype = "0.9"
minifb = "*"
