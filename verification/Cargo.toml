[package]
name = "u5dungeon"
version = "0.1.0"
edition = "2021"
publish = false

[dependencies]
lzw = "0.10"
image = { version = "0.24", default-features = false, features = ["png"] }
clap = { version = "4", features = ["derive"] }
