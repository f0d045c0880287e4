[package]
name = "cosmic_ext_cheatsheet"
version = "0.1.0"
edition = "2021"
publish = false

[dependencies]
xkbcommon = "0.8"
clap = { version = "4", features = ["derive"] }
