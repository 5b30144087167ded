[package]
name = "builder"
version = "0.1.0"
edition = "2021"
publish = false

[dependencies]
syn = "*"
quote = "*"
proc-macro2 = "*"
