[package]
name = "onecipher"
version = "0.1.0"
edition = "2021"
publish = false

[dependencies]
arboard = { version = "*", default-features = false }
axum = "*"
base64 = "*"
bs58 = "*"
clap = { version = "*", features = ["derive", "env"] }
clap_complete = "*"
crossterm = "*"
dirs = "*"
ed25519-dalek = { version = "*", features = ["rand_core"] }
hex = "*"
hpx = "*"
jiff = "*"
k256 = { version = "*", features = ["ecdsa"] }
prost = "*"
qr2term = "*"
rand = "*"
regex-lite = "*"
rpassword = "*"
serde = { version = "*", features = ["derive"] }
serde_json = "*"
sha1 = "*"
sha2 = "*"
sha3 = "*"
tempfile = "*"
thiserror = "*"
tokio = { version = "*", features = ["full"] }
toml = "*"
tracing = "*"
zeroize = "*"
