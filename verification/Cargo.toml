[package]
name = "linewise_replace"
version = "0.1.0"
edition = "2021"
publish = false

[dependencies]
regex = "1"
unescape = "0.1"
clap = { version = "4", features = ["derive"] }
ignore = "0.4"
rayon = "1"
tempfile = "3"
atty = "0.2"
