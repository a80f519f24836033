[package]
name = "hyperkv"
version = "0.1.0"
edition = "2021"
publish = false

[dependencies]
hyperdex = "*"
regex = "1"
