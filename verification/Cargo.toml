[package]
name = "braille_life"
version = "0.1.0"
edition = "2021"
publish = false

[dependencies]
braille = "*"
rand = "0.8"
termwiz = "*"
