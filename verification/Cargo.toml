[package]
name = "chess_engine"
version = "0.1.0"
edition = "2021"
publish = false

[dependencies]
array-init = "2"
rand = "0.8"
rayon = "1"
termion = "*"
