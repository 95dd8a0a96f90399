[package]
name = "sablast"
version = "0.1.0"
edition = "2021"
publish = false

[dependencies]
needletail = "*"
sbwt = "*"
