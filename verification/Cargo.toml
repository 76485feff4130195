[package]
name = "fractal_scheduler"
version = "0.1.0"
edition = "2021"
publish = false

[dependencies]
bigdecimal = "0.4"
image = { version = "0.24", default-features = false, features = ["png"] }
mpi = "0.6"
num-bigint = "0.4"
