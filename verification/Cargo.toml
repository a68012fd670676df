[package]
name = "chip8_hal"
version = "0.1.0"
edition = "2021"
publish = false

[dependencies]
libchip8 = "=0.1.2"
rand = "=0.6.5"
x86_64 = { version = "=0.14.13", default-features = false, features = ["instructions"] }
