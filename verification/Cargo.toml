[package]
name = "locksmith"
version = "0.1.0"
edition = "2021"
publish = false

[dependencies]
aes = "0.8"
hex = "0.4"
clap = { version = "4", features = ["derive"] }
rand = "0.8"
