[package]
name = "ezscn"
version = "0.1.0"
edition = "2021"
publish = false

[dependencies]
unicode-ident = "1"
thin-vec = "0.2"
ordered-float = "4"
