[package]
name = "setup_macos"
version = "0.1.0"
edition = "2021"
publish = false

[dependencies]
chrono = "*"
console = "*"
dialoguer = "*"
indicatif = "*"
prettytable-rs = "*"
