[package]
name = "muskitty-css-values"
version = "0.1.0"
edition = "2021"
publish = false

[dependencies]
muskitty-css = "*"
