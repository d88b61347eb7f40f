[package]
name = "cupsbackend"
version = "0.1.0"
edition = "2021"
publish = false

[dependencies]
url = "2"
tempfile = "3"
log = "0.4"
env_logger = "*"
