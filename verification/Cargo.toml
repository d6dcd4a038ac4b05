[package]
name = "image_resizer"
version = "0.1.0"
edition = "2021"
publish = false

[dependencies]
anyhow = "*"
clap = { version = "*", features = ["derive"] }
concat-with = "*"
image-convert = "*"
num_cpus = "*"
pathdiff = "*"
scanner-rust = "*"
starts-ends-with-caseless = "*"
str-utils = "*"
terminal_size = "*"
threadpool = "*"
walkdir = "*"
