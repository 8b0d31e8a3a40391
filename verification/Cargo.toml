[package]
name = "rstris"
version = "0.1.0"
edition = "2021"
publish = false

[dependencies]
macroquad = { version = "=0.3.26", features = ["audio"] }
rand = "=0.8.8"
