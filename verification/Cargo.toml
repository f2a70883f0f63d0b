[package]
name = "adt"
version = "0.1.0"
edition = "2021"
publish = false

[dependencies]
url = "=2.5.8"
clap = { version = "=4.6.7", features = ["derive"] }
log = "=0.4.34"
