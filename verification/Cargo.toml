[package]
name = "netover"
version = "0.1.0"
edition = "2021"
publish = false

[dependencies]
sha2 = "0.10"
hkdf = "0.12"
hmac = "0.12"
hex = "0.4"
base64 = "0.22"
x25519-dalek = "2"
rand = "0.8"
regex = "1"
serde = { version = "1", features = ["derive"] }
serde_json = "1"
toml = "0.8"
tokio = { version = "1", features = ["rt-multi-thread", "macros", "sync", "time"] }
tokio-tungstenite = "0.26"
tungstenite = "0.26"
futures-util = "0.3"
keyring = "3"
log = "0.4"
webrtc = "0.12"
