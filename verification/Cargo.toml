[package]
name = "zcash-scanner"
version = "0.1.0"
edition = "2021"
publish = false

[dependencies]
anyhow = "1"
axum = "0.8"
dotenvy = "0.15"
hex = "=0.4.3"
secrecy = "=0.10.3"
serde = { version = "1", features = ["derive"] }
serde_json = "1"
subtle = "=2.6.1"
thiserror = "2"
tokio = { version = "1", features = ["macros", "rt-multi-thread", "net", "signal", "time"] }
tonic = { version = "=0.14.9", features = ["tls-ring", "tls-native-roots"] }
tower-http = { version = "0.6", features = ["trace"] }
tracing = "0.1"
tracing-subscriber = { version = "0.3", features = ["env-filter"] }
zcash_client_backend = { version = "=0.23.0", features = ["orchard", "lightwalletd-tonic"] }
zcash_keys = { version = "0.14", features = ["orchard", "sapling"] }
zcash_primitives = "=0.28.0"
zcash_protocol = "0.9"
zip32 = "0.2"

[dev-dependencies]
orchard = "0.14"
sapling-crypto = "0.7"
zcash_note_encryption = "0.4"
rand_core = { version = "0.6", features = ["getrandom"] }
