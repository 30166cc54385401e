[package]
name = "pending_eth_transactions"
version = "0.1.0"
edition = "2021"
publish = false

[dependencies]
anyhow = "=1.0.104"
flume = "=0.12.0"
futures = "=0.3.34"
futures-util = { version = "=0.3.34", features = ["sink"] }
log = "=0.4.35"
parking_lot = "=0.13.0"
rustc-hex = "=2.1.0"
serde = { version = "=1.0.229", features = ["derive"] }
serde_json = "=1.0.154"
thiserror = "=1.0.69"
tokio = { version = "=1.54.1", features = ["rt-multi-thread", "macros", "time", "net", "sync"] }
tokio-tungstenite = "=0.30.0"
web3 = { version = "=0.19.0", default-features = false }
