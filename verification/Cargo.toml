[package]
name = "bas2wav"
version = "0.1.0"
edition = "2021"
publish = false

[dependencies]
a2kit = "*"
anyhow = "*"
hound = "*"
itertools = "*"
