[package]
name = "svd_mmap"
version = "0.1.0"
edition = "2021"
publish = false

[dependencies]
inflections = "*"
svd-parser = "*"
clap = "*"
