[package]
name = "embed_core"
version = "0.1.2"
edition = "2021"
publish = false

[dependencies]
libm = "0.2"
