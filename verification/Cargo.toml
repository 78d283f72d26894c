[package]
name = "acc"
version = "0.1.0"
edition = "2021"
publish = false

[dependencies]
clap = "2"
dirs = "*"
easy-scraper = "*"
regex = "*"
serde = { version = "1", features = ["derive"] }
toml = "*"
