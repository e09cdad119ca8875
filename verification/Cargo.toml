[package]
name = "salt_front"
version = "0.1.0"
edition = "2021"
publish = false

[dependencies]
z3 = "=0.10.0"
syn = { version = "=2.0.119", features = ["full", "extra-traits"] }
proc-macro2 = "=1.0.107"
anyhow = "=1.0.104"
