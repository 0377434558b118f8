[package]
name = "card_mesh"
version = "0.1.0"
edition = "2021"
publish = false

[dependencies]
base64 = "0.22"
rand = { version = "0.9", features = ["small_rng"] }
