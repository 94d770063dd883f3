[package]
name = "commitizen"
version = "0.1.0"
edition = "2021"
publish = false

[dependencies]
textwrap = "*"
dialoguer = "*"
directories = "*"
serde_json = "*"
