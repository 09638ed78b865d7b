[package]
name = "snipe_yourself"
version = "0.1.0"
edition = "2021"
publish = false

[dependencies]
clap = { version = "3", features = ["derive"] }
dirs = "*"
owo-colors = "*"
regex = "*"
requestty = "*"
rust-fuzzy-search = "*"
rusty-yaml = "*"
titlecase = "*"
