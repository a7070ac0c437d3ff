[package]
name = "charlesmine"
version = "0.1.0"
edition = "2021"
publish = false

[dependencies]
chrono = { version = "=0.4.45", default-features = false, features = ["clock"] }
rand = "=0.6.5"
clamp = "=0.1.0"
env_logger = "=0.11.11"
smallvec = "=1.16.4"
