[package]
name = "ichor"
version = "0.1.0"
edition = "2021"
publish = false

[dependencies]
regex = "1"
indexmap = "2"
ctrlc = "3"
