[package]
name = "one_and_all"
version = "0.1.0"
edition = "2021"
publish = false

[dependencies]
rand = "*"
