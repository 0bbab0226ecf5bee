[package]
name = "punchcard"
version = "0.1.0"
edition = "2021"
publish = false

[dependencies]
indexmap = "2"
num = "0.4"
gl = "0.14"
yoga = "*"
