[package]
name = "pac"
version = "0.1.0"
edition = "2021"
publish = false

[dependencies]
yaml-rust = "0.4"
clap = "2"
dirs = "*"
lazy_static = "1"
num_cpus = "1"
termion = "*"
walkdir = "2"
