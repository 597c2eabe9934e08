[package]
name = "extra-safe"
version = "0.1.0"
edition = "2021"
publish = false

[dependencies]
hybrid-array = "*"
typenum = "*"
