[package]
name = "deepmath"
version = "0.1.0"
edition = "2021"
publish = false

[dependencies]
anyhow = "1"
bytes = "1"
clap = "3"
colored = "2"
crossterm = "*"
flate2 = "1"
log = "0.4"
reqwest = { version = "0.11", features = ["blocking"] }
simple_logger = "*"
tar = "0.4"
termimad = "*"
