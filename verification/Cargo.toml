[package]
name = "substrate-api-client"
version = "0.1.0"
edition = "2021"
publish = false

[dependencies]
sp-core = "=43.0.0"
sp-crypto-hashing = "=0.1.0"
hex = "=0.4.3"
parity-scale-codec = "=3.7.5"
serde = { version = "=1.0.229", features = ["derive"] }
serde_json = "=1.0.154"
frame-metadata = { version = "=23.0.1", features = ["legacy"] }
scale-info = "=2.11.6"
thiserror = "=2.0.21"
async-trait = "=0.1.92"
jsonrpsee-ws-client = "=0.26.1"
jsonrpsee-core = { version = "=0.26.1", features = ["client"] }
log = "=0.4.35"
