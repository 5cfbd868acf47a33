[package]
name = "pocc"
version = "0.1.0"
edition = "2021"
publish = false

[dependencies]
sha2 = "0.10"
hmac = "0.12"
hex = "0.4"
getrandom = "0.2"
pqcrypto-dilithium = "*"
pqcrypto-kyber = "*"
pqcrypto-traits = "*"
thiserror = "1"
serde = { version = "1", features = ["derive"] }
serde_json = "1"
tokio = { version = "1", features = ["full"] }
tokio-tungstenite = "*"
futures-util = "0.3"
governor = "*"
crossbeam-channel = "0.5"
rayon = "1"

[dev-dependencies]
bincode = "1"
