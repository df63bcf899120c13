[package]
name = "into_inner_drop"
version = "0.1.0"
edition = "2021"
publish = false

[dev-dependencies]
dropcheck = "*"
