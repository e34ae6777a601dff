[package]
name = "supersol_token"
version = "0.1.0"
edition = "2021"
publish = false

[dependencies]
solana-program-error = "*"
solana-pubkey = "*"
solana-sysvar = "*"
thiserror = "*"
