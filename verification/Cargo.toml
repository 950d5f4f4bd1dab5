[package]
name = "compiler"
version = "0.4.0"
edition = "2021"
publish = false

[dependencies]
clap = "4"
