[package]
name = "cpop"
version = "0.1.0"
edition = "2021"
publish = false

[dependencies]
light-hasher = { version = "=7.0.0", features = ["sha256"] }
solana-program = "=5.1.0"
anchor-lang = "=1.2.1"
