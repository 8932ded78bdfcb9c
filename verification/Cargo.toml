[package]
name = "cyclovander"
version = "0.1.0"
edition = "2021"
publish = false

[dependencies]
anyhow = "1"
atty = "0.2"
indicatif = "0.16"
nalgebra = "*"
ndarray = "0.15"
ndarray-linalg = { version = "0.16", features = ["openblas-static"] }
num = "0.4"
rayon = "1"
red_primality = "*"
structopt = "0.3"
