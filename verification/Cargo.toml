[package]
name = "contree"
version = "0.1.0"
edition = "2021"
publish = false

[dependencies]
anyhow = "1"
atty = "0.2"
clap = { version = "4", features = ["derive"] }
ignore = "0.4"
regex = "1"
walkdir = "2"
