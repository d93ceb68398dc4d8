[package]
name = "dmenu_rs"
version = "0.1.0"
edition = "2021"
publish = false

[dependencies]
regex = "1"
unicode-segmentation = "1"
fuzzy-matcher = "*"
clap = "4"
ispell = "*"
rink-core = "*"
