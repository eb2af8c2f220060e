[package]
name = "rust_mlp"
version = "0.1.0"
edition = "2021"

[dependencies]
csv = "1"
num-traits = "0.2"
rand = "0.8"
