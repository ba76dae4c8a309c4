[package]
name = "fuwa"
version = "0.1.0"
edition = "2021"
publish = false

[dependencies]
slab = "*"
rayon = "*"
glam = "*"
image = "*"
num_cpus = "*"
