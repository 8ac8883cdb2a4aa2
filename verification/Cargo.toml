[package]
name = "poe_bundle"
version = "0.1.0"
edition = "2021"
publish = false

[dependencies]
ggpk = "*"
