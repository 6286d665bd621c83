[package]
name = "zerostack"
version = "0.1.0"
edition = "2021"
publish = false

[dependencies]
unicode-width = "*"
crossterm = "*"
ignore = "*"
chrono = "*"
pulldown-cmark = "*"
