[package]
name = "progression"
version = "0.1.0"
edition = "2021"
publish = false

[dependencies]
futures = "0.3"
futures-timer = "3"
term_size = "0.3"
