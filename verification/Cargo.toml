[package]
name = "hangman"
version = "0.1.0"
edition = "2021"
publish = false

[dependencies]
rand = "*"
clap = { version = "*", features = ["derive"] }
crossterm = "*"
ctrlc = "*"
