[package]
name = "matrix_rain"
version = "0.1.0"
edition = "2021"
publish = false

[dependencies]
rand = "0.8"
tui = "0.19"
crossterm = "0.25"
