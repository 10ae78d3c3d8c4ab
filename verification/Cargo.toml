[package]
name = "chip8_cpu"
version = "0.1.0"
edition = "2021"
publish = false

[dependencies]
fastrand = "*"
clap = { version = "*", features = ["derive"] }
