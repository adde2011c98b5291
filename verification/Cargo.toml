[package]
name = "city_builder"
version = "0.1.0"
edition = "2021"
publish = false

[dependencies]
piston_window = "*"
