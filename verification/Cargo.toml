[package]
name = "fluxchat"
version = "0.1.0"
edition = "2021"
publish = false

[dependencies]
anyhow = "1"
chrono = { version = "0.4", default-features = false, features = ["clock", "std"] }
matrix-sdk = { version = "0.7", default-features = false, features = ["e2e-encryption", "rustls-tls"] }
rand = "0.8"
ruma = "0.9"
rusqlite = { version = "*", features = ["bundled"] }
rust-i18n = "3"
scraper = { version = "*", default-features = false }
tokio = { version = "1", features = ["macros", "rt-multi-thread", "time"] }
