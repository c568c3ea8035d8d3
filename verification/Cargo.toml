[package]
name = "yumosu"
version = "0.1.0"
edition = "2021"
publish = false

[dependencies]
rand = "*"
biquad = "*"
macroquad = "*"
rodio = "*"
aubio = "*"
