[package]
name = "why_compiler"
version = "0.1.0"
edition = "2021"
publish = false

[dependencies]
either = "1"
num-format = "0.4"
