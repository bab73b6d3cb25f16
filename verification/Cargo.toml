[package]
name = "c_ast"
version = "0.1.0"
edition = "2021"
publish = false

[dependencies]
indexmap = { version = "1.9", features = ["std"] }
