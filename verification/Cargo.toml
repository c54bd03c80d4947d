[package]
name = "ch2rs"
version = "0.1.0"
edition = "2021"
publish = false

[dependencies]
anyhow = "1"
heck = "0.4"
structopt = "0.3"
