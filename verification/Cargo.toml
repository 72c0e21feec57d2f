[package]
name = "stream_window"
version = "0.1.0"
edition = "2021"
publish = false

[dependencies]
anyhow = "=1.0.104"
burn = "=0.9.0"
cpal = "=0.15.3"
strum = "=0.25.0"
