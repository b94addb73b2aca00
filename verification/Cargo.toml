[package]
name = "sinpi_ulp"
version = "0.1.0"
edition = "2021"
publish = false

[dependencies]
core-math = "*"
