[package]
name = "spine"
version = "0.1.0"
edition = "2021"
publish = false

[dependencies]
wasmtime = "=46.0.3"
libloading = "=0.9.0"
arc-swap = "=1.9.2"
