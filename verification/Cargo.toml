[package]
name = "flappy_bird"
version = "0.1.0"
edition = "2021"
publish = false

[dependencies]
byteorder = "1"
console_engine = "*"
rand = "0.8"
