[package]
name = "abi_v2"
version = "0.1.0"
edition = "2021"
publish = false

[dependencies]
solana-clock = { version = "=4.0.0", features = ["sysvar"] }
solana-epoch-rewards = { version = "=3.2.0", features = ["sysvar"] }
solana-epoch-schedule = { version = "=3.4.0", features = ["sysvar"] }
solana-instruction = "3"
solana-last-restart-slot = { version = "=3.2.0", features = ["sysvar"] }
solana-pubkey = "=4.4.0"
solana-rent = { version = "=4.5.0", features = ["sysvar"] }
solana-sbpf = "=0.26.0"
solana-slot-hashes = { version = "=4.0.0", features = ["sysvar"] }
solana-stake-interface = { version = "=5.1.1", features = ["sysvar"] }
solana-sysvar-id = "=3.1.0"
