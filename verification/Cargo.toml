[package]
name = "slint_spatial_focus"
version = "0.1.0"
edition = "2021"
publish = false

[dependencies]
i-slint-core = "*"
