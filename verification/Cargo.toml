[package]
name = "pqc_crosschain"
version = "0.1.0"
edition = "2021"
publish = false

[dependencies]
sha2 = "0.10"
hmac = "0.12"
getrandom = "0.2"
zeroize = "1"
rand_core = { version = "0.6", features = ["getrandom"] }
pqcrypto = "0.17"
base64 = "0.21"
serde_json = "1"
thiserror = "1"
chrono = "0.4"
tokio = { version = "1", features = ["time", "macros", "rt-multi-thread"] }
reqwest = { version = "0.11", default-features = false, features = ["rustls-tls"] }
ff = "0.13"
halo2curves = "0.6"
halo2_proofs = "0.3"
