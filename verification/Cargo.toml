[package]
name = "krama_runtime"
version = "0.1.0"
edition = "2021"
publish = false

[dependencies]
indexmap = "2"
ahash = "0.8"
path-clean = "1"
