[package]
name = "hello_account"
version = "0.1.0"
edition = "2021"
publish = false

[dependencies]
anyhow = "1"
borsh = { version = "1", features = ["derive"] }
clap = { version = "4", features = ["derive"] }
shellexpand = "3"
solana-program = "1.18"
solana-sdk = "1.18"
thiserror = "1"
