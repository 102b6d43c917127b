[package]
name = "noughts_and_crosses"
version = "0.1.0"
edition = "2021"
publish = false

[dependencies]
rand = "*"
