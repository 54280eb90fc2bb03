[package]
name = "img2csv"
version = "0.1.0"
edition = "2021"
publish = false

[dependencies]
image = "*"
