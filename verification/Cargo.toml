[package]
name = "mulperc"
version = "0.1.0"
edition = "2021"
publish = false

[dependencies]
flate2 = "1"
rand = "*"
rand_distr = "*"
rayon = "1"
serde = { version = "1", features = ["derive"] }
bincode = "1"
clap = "4"
image = "*"
pbr = "*"
