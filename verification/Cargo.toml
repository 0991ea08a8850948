[package]
name = "bellperson"
version = "0.1.0"
edition = "2021"
publish = false

[dependencies]
bit-vec = "0.6"
fff = { version = "*", features = ["derive"] }
groupy = "*"
paired = "*"
fs2 = "0.4"
futures = "0.1"
lazy_static = "1"
log = "0.4"
ocl = "0.19"
rand = "0.7"
rand_core = "0.5"
