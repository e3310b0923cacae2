[package]
name = "terrain_chunks"
version = "0.1.0"
edition = "2021"
publish = false

[dependencies]
num-traits = "0.2"
noise = "0.6"
