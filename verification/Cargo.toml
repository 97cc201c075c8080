[package]
name = "typ2tex"
version = "0.1.0"
edition = "2021"
publish = false

[dependencies]
regex = "1"
anyhow = "1"
clap = "4"
pest = "2"
pest_derive = "2"
