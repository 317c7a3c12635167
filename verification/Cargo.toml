[package]
name = "sless"
version = "0.1.0"
edition = "2021"
publish = false

[dependencies]
memchr = "*"
unicode-width = "*"
bstr = "*"
termion = "*"
rustyline = "*"
signal-hook = "*"
