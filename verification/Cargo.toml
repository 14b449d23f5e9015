[package]
name = "wallet_last_tx"
version = "0.1.0"
edition = "2021"
publish = false

[dependencies]
anyhow = "1"
chrono = "0.4"
csv = "1"
dotenv = "0.15"
ethers = { version = "2", default-features = false }
futures = "0.3"
reqwest = { version = "0.12", default-features = false, features = ["json"] }
rust_xlsxwriter = "*"
serde = { version = "1", features = ["derive"] }
serde_json = "1"
tokio = { version = "1", features = ["rt-multi-thread", "macros", "time", "sync"] }
