[package]
name = "lampyris"
version = "1.1.0"
edition = "2021"
publish = false

[dependencies]
sha2 = "=0.10.9"
hex = "=0.4.3"
subtle = "=2.6.1"
srp = "=0.6.0"
getrandom = "=0.2.17"
anyhow = "=1.0.104"
clap = { version = "=4.6.7", features = ["derive"] }
dirs = "=7.0.0"
local-ip-address = "=0.6.13"
opus = "=0.4.0"
pipewire = "=0.10.1"
ringbuf = "=0.5.3"
rustls = { version = "=0.23.46", default-features = false, features = ["ring", "std", "tls12", "logging"] }
tokio-rustls = { version = "=0.26.6", default-features = false, features = ["ring", "tls12", "logging"] }
tokio = { version = "=1.54.1", features = ["full"] }
scopeguard = "=1.2.0"
tracing = "=0.1.44"
tracing-subscriber = "=0.3.23"
