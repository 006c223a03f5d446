[package]
name = "intents_proxy"
version = "0.1.0"
edition = "2021"
publish = false

[dependencies]
near-sdk = { version = "=5.29.1", features = ["non-contract-usage"] }
near-contract-standards = "=5.29.1"
serde_json = "=1.0.154"
hex = "=0.4.3"
bs58 = "=0.5.1"
indexmap = { version = "=2.14.2", features = ["serde"] }
derive_more = { version = "=1.0.0", features = ["from"] }
impl-tools = "=0.10.3"
