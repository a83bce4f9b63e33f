[package]
name = "colquery"
version = "0.1.0"
edition = "2021"
publish = false

[dependencies]
rayon = "1"
rustc_apfloat = "*"
regex = "1"

[dev-dependencies]
fasteval = "*"
