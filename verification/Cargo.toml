[package]
name = "fractal_tiles"
version = "0.1.0"
edition = "2021"
publish = false

[dependencies]
crossbeam-channel = "*"
crossbeam = "*"
num_cpus = "*"
image = "*"
chrono = "*"
log = "*"
pretty_env_logger = "*"
