[package]
name = "rpc_bench"
version = "0.1.0"
edition = "2021"
publish = false

[dependencies]
anyhow = "=1.0.104"
base64 = "=0.22.1"
bincode = "=1.3.3"
clap = { version = "=4.6.7", features = ["derive"] }
env_logger = "=0.11.11"
log = "=0.4.35"
rand = "=0.8.8"
reqwest = { version = "=0.12.28", default-features = false, features = ["json"] }
serde = { version = "=1.0.229", features = ["derive"] }
serde_json = "=1.0.154"
solana-address-lookup-table-interface = { version = "=4.0.0", features = ["bincode", "bytemuck"] }
solana-compute-budget-interface = "=3.1.0"
solana-nonce = { version = "=3.4.0", features = ["serde"] }
solana-pubkey = "=4.4.0"
solana-sdk = "=5.0.0"
solana-system-interface = { version = "=3.3.0", features = ["bincode"] }
tokio = { version = "=1.54.1", features = ["full"] }
toml = "=1.1.8"
