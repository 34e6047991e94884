[package]
name = "rroguelike"
version = "0.1.0"
edition = "2021"

[dependencies]
rltk = "0.8"
