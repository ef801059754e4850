[package]
name = "mentori"
version = "0.1.0"
edition = "2021"
publish = false

[dependencies]
rust-htslib = { version = "*", default-features = false }
structopt = "*"
stderrlog = "*"
