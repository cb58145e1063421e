[package]
name = "usagelang"
version = "0.1.0"
edition = "2021"
publish = false

[dependencies]
clap = "4"
xdg = "*"
