[package]
name = "yart_engine"
version = "0.1.0"
edition = "2021"
publish = false

[dependencies]
yaml-rust = "*"
