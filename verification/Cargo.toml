[package]
name = "parrot"
version = "0.1.0"
edition = "2021"
publish = false

[dependencies]
anathema = "*"
anyhow = "1"
dirs = "*"
kira = "*"
syntect = "*"
unicode-width = "0.2"
