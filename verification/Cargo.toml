[package]
name = "rest"
version = "0.1.0"
edition = "2021"
publish = false

[dependencies]
colored = "*"
cruet = "*"
regex = "1"
