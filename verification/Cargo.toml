[package]
name = "lightning_goats"
version = "0.1.0"
edition = "2021"
publish = false

[dependencies]
anyhow = "=1.0.104"
base64 = "=0.22.1"
chrono = "=0.4.45"
clap = { version = "=4.6.7", features = ["derive"] }
hex = "=0.4.3"
hmac = "=0.12.1"
lightning-invoice = "=0.34.1"
reqwest = { version = "=0.12.28", default-features = false, features = ["json", "rustls-tls"] }
serde = { version = "=1.0.229", features = ["derive"] }
serde_json = "=1.0.154"
sha2 = "=0.10.9"
tokio = { version = "=1.54.1", features = ["macros", "rt-multi-thread", "time", "fs"] }
toml = "=1.1.8"
uuid = { version = "=1.29.0", features = ["v4"] }

[dev-dependencies]
bitcoin = "=0.32.102"
