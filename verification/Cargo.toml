[package]
name = "calc"
version = "0.1.0"
edition = "2021"
publish = false

[dependencies]
num-bigfloat = "=1.7.2"
