[package]
name = "gr6j"
version = "0.1.0"
edition = "2021"
publish = false

[dependencies]
chrono = "=0.4.45"
rayon = "=1.12.0"
ndarray = "=0.16.1"
egobox-doe = "=0.35.1"
rand = "=0.8.8"
