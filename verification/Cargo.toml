[package]
name = "porcel8"
version = "0.1.0"
edition = "2021"
publish = false

[dependencies]
rand = "*"
clap = { version = "*", features = ["derive"] }
log = "*"
simple_logger = "*"
sdl2 = "*"
