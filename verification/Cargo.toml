[package]
name = "tinybasic"
version = "0.1.0"
edition = "2021"

[dependencies]
argh = "*"
pest = "*"
pest_derive = "*"
