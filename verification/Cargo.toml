[package]
name = "solana_gun_quic_client"
version = "0.1.0"
edition = "2021"
publish = false

[dependencies]
quinn = { version = "0.11", default-features = false, features = ["rustls-ring", "runtime-tokio"] }
reqwest = { version = "0.12", default-features = false, features = ["rustls-tls-manual-roots"] }
rustls = { version = "0.23", default-features = false, features = ["ring", "std", "tls12"] }
rustls-native-certs = "0.8"
serde = { version = "1", features = ["derive"] }
serde_json = "1"
thiserror = "2"
tokio = { version = "1", features = ["net", "rt", "rt-multi-thread", "sync", "time"] }
tracing = "0.1"
zeroize = "1"

[dev-dependencies]
rcgen = { version = "0.13", default-features = false, features = ["ring", "pem"] }
