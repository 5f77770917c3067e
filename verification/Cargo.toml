[package]
name = "bitcoin_statistics"
version = "0.1.0"
edition = "2021"
publish = false

[dependencies]
bitcoincore-rpc = "0.14"
clap = { version = "3", features = ["derive"] }
config = "0.13"
indicatif = "0.17"
rand = "0.8"
serde = { version = "1", features = ["derive"] }
tabled = "0.7"
thiserror = "1"
tokio = { version = "1", features = ["full"] }
