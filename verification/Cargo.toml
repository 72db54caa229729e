[package]
name = "cove"
version = "0.1.0"
edition = "2021"
publish = false

[dependencies]
linkify = "=0.11.0"
unicode-width = "=0.2.3"
jiff = { version = "0.2", default-features = false, features = ["std"] }
clap = { version = "=4.6.7", features = ["derive"] }
anyhow = "=1.0.104"
crossterm = "=0.28.1"
log = "0.4"
