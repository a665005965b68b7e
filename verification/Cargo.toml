[package]
name = "aud"
version = "0.1.0"
edition = "2021"
publish = false

[dependencies]
crossterm = "*"
ratatui = "*"
rodio = "*"
rustfft = "*"
