[package]
name = "multisig"
version = "0.1.0"
edition = "2021"
publish = false

[dependencies]
solana-keccak-hasher = { version = "=3.1.0", features = ["sha3"] }
solana-account-info = "=3.1.1"
solana-program-error = "=3.0.1"
solana-pubkey = "=4.4.0"
