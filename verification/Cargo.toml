[package]
name = "elevator"
version = "0.1.0"
edition = "2021"
publish = false

[dependencies]
rand = "*"
lazy_static = "*"
