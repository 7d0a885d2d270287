[package]
name = "alto_syntax"
version = "0.1.0"
edition = "2021"
publish = false

[dependencies]
parseme = "=0.2.0-alpha"
