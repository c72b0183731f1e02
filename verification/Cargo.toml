[package]
name = "icoutils_rs"
version = "0.1.0"
edition = "2021"
publish = false

[dependencies]
ico = "=0.6.0"
png = "=0.17.16"
