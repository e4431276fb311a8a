[package]
name = "hello_grep"
version = "0.1.0"
edition = "2021"
publish = false

[dependencies]
regex = "1"
ansi_term = "0.12"
structopt = "0.3"
