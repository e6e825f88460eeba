[package]
name = "hausarbeit"
version = "0.1.0"
edition = "2021"
publish = false

[dependencies]
colored = "2"
csv = "1"
itertools = "0.12"
once_cell = "1"
rand = "0.8"
rand_chacha = "0.3"
rand_distr = "0.4"
rayon = "1"
serde = { version = "1", features = ["derive"] }
serde_json = "1"
