[package]
name = "typora_launcher"
version = "0.1.0"
edition = "2021"
publish = false

[dependencies]
winreg = "*"
