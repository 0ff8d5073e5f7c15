[package]
name = "aux_gen"
version = "0.1.0"
edition = "2021"
publish = false

[dependencies]
crypto-bigint = "0.5"
rand_core = { version = "0.6", features = ["getrandom"] }
sha2 = "0.10"
serde = { version = "1", features = ["derive"] }
