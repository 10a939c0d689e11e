[package]
name = "quartic"
version = "0.1.0"
edition = "2021"
publish = false

[dependencies]
combine = "2.5"
