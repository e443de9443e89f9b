[package]
name = "kitlang"
version = "0.1.0"
edition = "2021"
publish = false

[dependencies]
tree-sitter = "*"
tree-sitter-c = "*"
includium = "*"
walkdir = "*"
which = "*"
