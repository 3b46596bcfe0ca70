[package]
name = "paystack_transaction"
version = "0.1.0"
edition = "2021"
publish = false

[dependencies]
secrecy = "0.8"
zeroize = "1"
reqwest = { version = "*", default-features = false }
dotenv = "*"
async-trait = "*"

[dev-dependencies]
serde_json = "*"
