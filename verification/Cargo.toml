[package]
name = "batpu2"
version = "0.1.0"
edition = "2021"
publish = false

[dependencies]
anyhow = "1"
arrayvec = "0.7"
getopts = "0.2"
rand = { version = "0.8", features = ["small_rng"] }
thiserror = "1"
