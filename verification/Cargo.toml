[package]
name = "ray_tracer"
version = "0.1.0"
edition = "2021"
publish = false

[dependencies]
num-traits = "0.2"
itertools = "0.10"
rayon = "1"
