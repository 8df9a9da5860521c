[package]
name = "background_jobs"
version = "0.1.0"
edition = "2021"
publish = false

[dependencies]
base64 = "0.22"
rustls = { version = "0.23", default-features = false, features = ["ring", "std", "tls12", "logging"] }
rustls-pki-types = "1"
webpki-roots = "0.26"
