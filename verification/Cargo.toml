[package]
name = "scheme_engine"
version = "0.1.0"
edition = "2021"
publish = false

[dependencies]
smol_str = "*"
