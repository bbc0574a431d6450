[package]
name = "cer_tracer"
version = "0.1.0"
edition = "2021"
publish = false

[dependencies]
crossbeam = "0.8"
glm = "0.2.3"
image = { version = "0.24", default-features = false, features = ["jpeg", "png"] }
itertools = "0.12"
num_cpus = "1"
rand = "0.8"
