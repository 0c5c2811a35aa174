[package]
name = "envsync"
version = "0.1.0"
edition = "2021"
publish = false

[dependencies]
pep440_rs = "*"
