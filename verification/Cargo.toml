[package]
name = "albatross_core"
version = "0.1.0"
edition = "2021"
publish = false

[dependencies]
num-bigint = "*"
num-traits = "*"
base64 = "*"
hex = "*"
