[package]
name = "railroad"
version = "0.3.0"
edition = "2021"
publish = false

[dependencies]
unicode-width = "*"
resvg = "*"

[dev-dependencies]
roxmltree = "*"
