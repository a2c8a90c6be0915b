[package]
name = "sofia"
version = "0.1.0"
edition = "2021"
publish = false

[dependencies]
rstar = "0.9"
ranges = "0.4"
noise = "0.8"
rand = "0.8"
rand_pcg = "0.3"
petgraph = "0.6"
ndarray = "0.15"
extent = "0.5"
toodee = "0.4"
