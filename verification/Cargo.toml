[package]
name = "wg-conf"
version = "0.1.0"
edition = "2021"
publish = false

[dependencies]
base64 = "0.22"
x25519-dalek = { version = "2", features = ["static_secrets", "getrandom"] }
rand_core = { version = "0.6", features = ["getrandom"] }
rust-ini = "0.21"
ipnetwork = "0.20"
url = "2"
strum = "0.26"
strum_macros = "0.26"
tokio = { version = "1", features = ["full"] }
tonic = { version = "0.13", features = ["tls-ring"] }
tonic-middleware = "0.3"
prost = "0.13"
http = "1"
clap = "2.34"
log = "0.4"
pretty_env_logger = "0.5"
simple-error = "0.3"
tempfile = "3"
