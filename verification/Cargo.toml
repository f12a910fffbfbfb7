[package]
name = "sibna_core"
version = "3.0.0"
edition = "2021"
publish = false

[dependencies]
rand = "=0.8.8"
rand_core = { version = "=0.6.4", features = ["getrandom"] }
hkdf = "=0.12.4"
hmac = "=0.12.1"
sha2 = "=0.10.9"
subtle = "=2.6.1"
zeroize = "=1.9.1"
ed25519-dalek = "=2.2.0"
hex = "=0.4.3"
chacha20poly1305 = "=0.10.1"
chrono = "=0.4.45"
serde = { version = "=1.0.229", features = ["derive"] }
serde_json = "=1.0.154"
libc = "=0.2.191"
mdns-sd = "0.11"
if-addrs = "0.13"
tokio = { version = "1", features = ["rt", "sync", "time"] }

[dev-dependencies]
bincode = { version = "=2.0.1", features = ["serde"] }
