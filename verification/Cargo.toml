[package]
name = "nvr"
version = "0.1.0"
edition = "2021"
publish = false

[dependencies]
mst-parser = "*"
varchain = "*"
pollster = "*"
