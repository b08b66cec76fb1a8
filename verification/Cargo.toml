[package]
name = "typstyle"
version = "0.1.0"
edition = "2021"
publish = false

[dependencies]
typst-syntax = "*"
unicode-width = "0.1"
clap = { version = "4", features = ["derive"] }
clap_complete = "4"
