[package]
name = "qsrs"
version = "0.1.0"
edition = "2021"
publish = false

[dependencies]
num_cpus = "1"
num-complex = "0.4"
ndarray = "0.15"
rand = "0.7"
rayon = "1"
nlopt = "*"
