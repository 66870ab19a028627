[package]
name = "dirscan"
version = "0.1.0"
edition = "2021"
publish = false

[dependencies]
anyhow = "*"
clap = { version = "*", features = ["derive"] }
console = "*"
crossterm = "*"
globset = "*"
indicatif = "*"
once_cell = "*"
regex = "*"
