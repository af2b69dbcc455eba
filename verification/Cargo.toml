[package]
name = "stitches"
version = "0.1.0"
edition = "2021"
publish = false

[dependencies]
human_format = "1"
metered = "*"
num_cpus = "1"
rayon = "1"
