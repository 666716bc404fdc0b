[package]
name = "eff_blob"
version = "0.1.0"
edition = "2021"
publish = false

[dependencies]
scalar_types = "*"
