[package]
name = "axiom_sandbox"
version = "0.1.0"
edition = "2021"
publish = false

[dependencies]
rust_decimal = "=1.43.0"
chrono = "=0.4.45"
hmac = "=0.12.1"
sha2 = "=0.10.9"
serde_json = "=1.0.154"
url = "=2.5.8"
rand = "=0.10.3"
uuid = { version = "=1.29.0", features = ["v4"] }
serde = { version = "=1.0.229", features = ["derive"] }
log = "=0.4.35"
csv = "=1.4.0"
dotenvy = "=0.15.7"
tokio = { version = "=1.54.1", features = ["rt-multi-thread", "macros", "sync", "time", "net"] }
futures-util = "=0.3.34"
tokio-tungstenite = { version = "=0.28.0", default-features = false, features = ["connect", "handshake", "rustls-tls-webpki-roots"] }
reqwest = { version = "=0.12.28", default-features = false, features = ["json", "rustls-tls"] }
yata = { version = "=0.6.3", features = ["period_type_u64"] }
binance = "=0.21.3"
