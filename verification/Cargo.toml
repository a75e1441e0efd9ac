[package]
name = "kepler"
version = "0.1.0"
edition = "2021"
publish = false

[dependencies]
anyhow = "=1.0.104"
eom = "=0.11.0"
ndarray = "=0.15.6"
ndarray-linalg = "=0.16.0"
num = "=0.4.3"
