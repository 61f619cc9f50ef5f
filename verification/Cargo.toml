[package]
name = "dealer_store"
version = "0.1.0"
edition = "2021"
publish = false

[dependencies]
aes-gcm = "=0.11.1"
base64 = "=0.23.1"
chrono = "=0.4.45"
dirs = "=7.0.0"
hostname = "=0.4.2"
rusqlite = { version = "=0.40.2", features = ["bundled"] }
serde = { version = "=1.0.229", features = ["derive"] }
serde_json = "=1.0.151"
sha2 = "=0.11.0"
