[package]
name = "geo_svg"
version = "0.1.0"
edition = "2021"
publish = false

[dependencies]
geo = "*"
num-traits = "*"
