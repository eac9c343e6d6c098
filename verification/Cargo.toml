[package]
name = "freesignal"
version = "0.1.0"
edition = "2021"
publish = false

[dependencies]
aes-gcm = "0.10"
async-trait = "0.1"
axum = "0.7"
base64 = "0.22"
ed25519-dalek = "2"
hkdf = "0.12"
hmac = "0.12"
rand_core = { version = "0.6", features = ["std", "getrandom"] }
reqwest = { version = "0.12", default-features = false, features = ["json", "rustls-tls"] }
serde = { version = "1", features = ["derive"] }
serde_json = "1"
sha2 = "0.10"
subtle = "2"
tokio = { version = "1", features = ["rt-multi-thread", "net", "macros", "sync"] }
x25519-dalek = { version = "2", features = ["static_secrets"] }
zeroize = "1"
