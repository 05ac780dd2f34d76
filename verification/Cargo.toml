[package]
name = "mynn"
version = "0.1.2"
edition = "2021"

[dependencies]
fastrand = "2"
libm = "0.2"
micromath = "2"
