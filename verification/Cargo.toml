[package]
name = "librpm"
version = "0.1.0"
edition = "2021"
publish = false

[dependencies]
librpm-sys = "*"
streaming-iterator = "*"
