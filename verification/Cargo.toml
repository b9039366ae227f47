[package]
name = "maybenot"
version = "0.1.0"
edition = "2021"
publish = false

[dependencies]
rand = "0.8"
rand_distr = "0.4"
ring = "0.17"
hex = "0.4"
base64 = "0.22"
flate2 = "1"
bincode = "1.3"
serde = { version = "1", features = ["derive"] }
enum-map = "2"
