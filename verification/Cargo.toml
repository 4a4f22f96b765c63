[package]
name = "rslife"
version = "0.1.0"
edition = "2021"
publish = false

[dependencies]
drawille = "=0.3.0"
rand = "=0.10.3"
ctrlc = "*"
