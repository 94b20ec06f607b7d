[package]
name = "blacc"
version = "0.1.0"
edition = "2021"
publish = false

[dependencies]
bytes = "0.4"
clap = "2.33"
error-chain = "0.12"
futures = "0.1"
libc = "0.2"
log = "0.4"
regex = "1"
reqwest = { version = "0.9", default-features = false, features = ["rustls-tls"] }
serde = { version = "1", features = ["derive"] }
stderrlog = "0.4"
tokio = "0.1"
toml = "0.5"
walkdir = "2"
