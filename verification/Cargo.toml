[package]
name = "kbm"
version = "0.1.0"
edition = "2021"
publish = false

[dependencies]
ring = "0.17"
x11rb = { version = "0.13", features = ["xtest"] }
