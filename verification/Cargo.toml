[package]
name = "wsp"
version = "0.1.0"
edition = "2021"
publish = false

[dependencies]
anyhow = "1"
base64 = "0.22"
bincode = "1"
blake3 = "1"
chacha20poly1305 = "0.10"
chrono = "0.4"
clap = { version = "4", features = ["derive"] }
futures-util = "0.3"
hkdf = "0.12"
rand = "0.8"
rmp-serde = "1"
rpassword = "7"
serde = { version = "1", features = ["derive"] }
sha2 = "0.10"
tokio = { version = "1", features = ["rt-multi-thread", "macros", "net", "sync", "time"] }
tokio-tungstenite = "0.21"
x25519-dalek = { version = "2", features = ["static_secrets"] }
