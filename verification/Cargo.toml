[package]
name = "blightmud"
version = "0.1.0"
edition = "2021"
publish = false

[dependencies]
regex = "=1.13.1"
unicode-width = "=0.2.3"
vte = "=0.15.0"
rs-complete = "=1.3.1"
libtelnet-rs = "=2.0.0"
termion = "=4.0.6"
anyhow = "=1.0.104"
log = "=0.4.35"
serde = { version = "=1.0.229", features = ["derive"] }
reqwest = { version = "=0.12.28", default-features = false, features = ["blocking", "json", "rustls-tls"] }
chrono = "=0.4.45"
flate2 = "=1.1.10"
lazy_static = "=1.5.1"
dirs = "=7.0.0"
ron = "=0.12.3"
rustls = { version = "=0.23.46", default-features = false, features = ["ring", "std", "tls12", "logging"] }
webpki-roots = "=1.0.10"
