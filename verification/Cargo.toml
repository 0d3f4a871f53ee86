[package]
name = "gpower_tweaks"
version = "0.1.0"
edition = "2021"
publish = false

[dependencies]
encoding_rs = "*"
