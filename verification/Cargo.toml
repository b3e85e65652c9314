[package]
name = "ccplan"
version = "0.1.0"
edition = "2021"
publish = false

[dependencies]
jiff = "0.2"
notify-rust = "4"
clap = { version = "4", features = ["derive"] }
