[package]
name = "price_oracle"
version = "0.1.0"
edition = "2021"
publish = false

[dependencies]
anyhow = "=1.0.104"
axum = "=0.6.20"
bytemuck = "=1.25.2"
dotenvy = "=0.15.7"
pyth-sdk-solana = "=0.10.6"
redis = { version = "=0.23.5", features = ["tokio-comp"] }
serde = { version = "=1.0.229", features = ["derive"] }
serde_json = "=1.0.154"
solana-program = "=2.3.0"
solana-sdk = "=1.18.26"
tokio = { version = "=1.54.1", features = ["full"] }
tracing-subscriber = "=0.3.23"
