[package]
name = "veil"
version = "0.1.0"
edition = "2021"
publish = false

[dependencies]
base64 = "0.22"
blake3 = "1"
chacha20poly1305 = "0.10"
futures = "0.3"
hickory-resolver = "*"
log = "0.4"
quinn = "0.11"
rand = "0.9"
rand_core = { version = "0.6", features = ["getrandom"] }
rcgen = "0.13"
rustls = "0.23"
rustls-pki-types = "1"
socket2 = { version = "0.6", features = ["all"] }
thiserror = "2"
tokio = { version = "1", features = ["full"] }
tokio-rustls = "0.26"
tokio-socks = "0.5"
tokio-tungstenite = "*"
webpki-roots = "*"
zeroize = "1"
