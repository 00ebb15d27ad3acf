[package]
name = "inv4-git"
version = "0.1.0"
edition = "2021"
publish = false

[dependencies]
twox-hash = "1.6"
parity-scale-codec = { version = "3", features = ["derive"] }
cid = "0.11"
multihash = "0.19"
hex = "0.4"
git2 = { version = "0.15", default-features = false }
futures = "0.3"
tokio = { version = "1", features = ["rt-multi-thread", "macros", "io-std", "io-util", "process"] }
log = "0.4"
serde = { version = "1", features = ["derive"] }
serde_json = "1"
toml = "0.5"
dirs = "4"
base64 = "0.13"
brotli = "3"
rpassword = "7"
magic-crypt = "3"
reqwest = { version = "0.11", default-features = false, features = ["json", "multipart", "rustls-tls"] }
