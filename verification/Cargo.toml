[package]
name = "portbridge"
version = "0.1.0"
edition = "2021"
publish = false

[dependencies]
env_logger = "*"
log = "*"
notify = "*"
reqwest = { version = "*", default-features = false, features = ["blocking"] }
