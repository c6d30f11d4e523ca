[package]
name = "friendly-filer"
version = "0.2.0"
edition = "2021"
publish = false

[dependencies]
termray = "0.3"
crossterm = "0.29"
anyhow = "1"
