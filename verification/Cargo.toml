[package]
name = "survey"
version = "0.1.0"
edition = "2021"
publish = false

[dependencies]
macroquad = "0.4"
cpal = "0.15"
dasp = { version = "0.11", features = ["signal"] }
hound = "3.5"
anyhow = "1.0"
