[package]
name = "ratio"
version = "0.1.0"
edition = "2021"

[dependencies]
typenum = "1"
