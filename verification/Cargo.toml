[package]
name = "flowblocks"
version = "0.1.0"
edition = "2021"
publish = false

[dependencies]
anyhow = "*"
inquire = "*"
tree-sitter = "*"
tree-sitter-rust = "*"
