[package]
name = "gomoku_policy"
version = "0.1.0"
edition = "2021"
publish = false

[dependencies]
kn-graph = "*"
