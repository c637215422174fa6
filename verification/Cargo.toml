[package]
name = "vist_toml"
version = "0.1.0"
edition = "2021"
publish = false

[dependencies]
toml_document = "*"
winapi = "0.2"
kernel32-sys = "0.2"
