[package]
name = "preview_plugins"
version = "0.1.0"
edition = "2021"
publish = false

[dependencies]
image = "0.25"
syntect = { version = "5", default-features = false, features = ["default-fancy"] }
