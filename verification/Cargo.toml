[package]
name = "buzz_import"
version = "0.1.0"
edition = "2021"
publish = false

[dependencies]
nostr = "=0.44.8"
serde = { version = "=1.0.229", features = ["derive"] }
serde_json = "=1.0.154"
base64 = "=0.22.1"
hex = "=0.4.3"
sha2 = "0.10"
uuid = { version = "=1.29.0", features = ["v4"] }
thiserror = "=2.0.21"
reqwest = { version = "=0.12.28", default-features = false, features = ["rustls-tls"] }
rustls = { version = "=0.23.46", default-features = false, features = ["ring", "std", "tls12", "logging"] }
tokio = { version = "=1.54.1", features = ["macros", "rt-multi-thread"] }
clap = { version = "=4.6.7", features = ["derive", "env"] }
