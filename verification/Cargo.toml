[package]
name = "tenv"
version = "0.1.0"
edition = "2021"
publish = false

[dependencies]
argfile = "*"
clap = { version = "*", features = ["derive"] }
ctrlc = "*"
dirs = "*"
dunce = "*"
shellexpand = "*"
