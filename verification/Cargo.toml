[package]
name = "docfit"
version = "0.1.0"
edition = "2021"
publish = false

[dependencies]
egui = "=0.31.1"
toml = "=0.8.23"
typst = "=0.13.1"
typst-kit = { version = "=0.13.1", default-features = false, features = ["fonts"] }
typst-render = "=0.13.1"
