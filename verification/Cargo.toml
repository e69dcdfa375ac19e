[package]
name = "faucet"
version = "0.1.0"
edition = "2021"
publish = false

[dependencies]
anyhow = "=1.0.104"
async-trait = "=0.1.92"
axum = "=0.6.20"
dotenv = "=0.15.0"
near-crypto = "=0.17.0"
near-jsonrpc-client = "=0.6.0"
near-jsonrpc-primitives = "=0.17.0"
near-primitives = "=0.17.0"
serde = { version = "=1.0.229", features = ["derive"] }
serde_json = "=1.0.154"
tokio = { version = "=1.28.2", features = ["full"] }
tokio-stream = "=0.1.14"
tower-http = { version = "=0.4.4", features = ["cors"] }
tracing = "=0.1.44"
tracing-subscriber = "=0.3.23"
