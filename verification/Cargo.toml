[package]
name = "dmi"
version = "0.1.0"
edition = "2021"
publish = false

[dependencies]
factorial = "*"
ndarray = "*"
ndarray-linalg = "*"
