[package]
name = "indexer"
version = "0.1.0"
edition = "2021"
publish = false

[dependencies]
solana-sdk = { version = "=5.0.0", default-features = false }
serde = { version = "=1.0.229", features = ["derive"] }
serde_json = "=1.0.154"
dotenv = "=0.15.0"
diesel = { version = "=2.3.14", features = ["postgres"] }
rocket = { version = "0.5", features = ["json"] }
rocket_cors = "0.6"

[dev-dependencies]
borsh = "=1.8.1"
