[package]
name = "nyx_daemon"
version = "0.1.0"
edition = "2021"
publish = false

[dependencies]
sha3 = "=0.12.0"
hex = "=0.4.3"
pqcrypto-kyber = "=0.8.1"
pqcrypto-dilithium = "=0.5.0"
pqcrypto-traits = "=0.3.5"
axum = "=0.8.9"
tokio = { version = "=1.53.2", features = ["full"] }
chrono = "=0.4.45"
serde = { version = "=1.0.229", features = ["derive"] }
serde_json = "=1.0.151"
reqwest = { version = "=0.13.5", default-features = false, features = ["blocking", "json"] }
tower-http = { version = "=0.7.1", features = ["cors"] }
rand = "=0.10.3"
glob = "=0.3.4"
tiny_http = "*"
