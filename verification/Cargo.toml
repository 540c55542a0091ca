[package]
name = "logos_accounts"
version = "0.1.0"
edition = "2021"
publish = false

[dependencies]
bip32 = "=0.5.3"
futures = "=0.3.34"
multi-base = "=1.0.4"
rand_core = { version = "=0.6.4", features = ["getrandom"] }
serde = { version = "=1.0.229", features = ["derive"] }
serde_json = "=1.0.154"
sha2 = "=0.10.9"
thiserror = "=2.0.21"
tokio = { version = "=1.54.1", features = ["sync", "rt-multi-thread"] }
tracing = "=0.1.44"

[dev-dependencies]
k256 = { version = "=0.13.4", features = ["ecdsa"] }
