[package]
name = "priority_details"
version = "0.1.0"
edition = "2021"
publish = false

[dependencies]
solana-program-runtime = "1.18"
solana-sdk = "1.18"
