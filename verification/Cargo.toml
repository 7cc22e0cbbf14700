[package]
name = "play-cnnee"
version = "0.1.0"
edition = "2021"
publish = false

[dependencies]
anyhow = "1"
crossterm = "0.27"
ratatui = "0.24"
rodio = "0.17"
symphonia = { version = "0.5", features = ["mp3"] }
