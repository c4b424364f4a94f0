[package]
name = "cam2anki"
version = "0.1.0"
edition = "2021"
publish = false

[dependencies]
anyhow = "*"
dialoguer = "*"
futures = "*"
indicatif = "*"
reqwest = { version = "*", default-features = false, features = ["json", "rustls-tls"] }
rusqlite = { version = "*", features = ["bundled"] }
scraper = "*"
serde = { version = "*", features = ["derive"] }
serde_json = "*"
tokio = { version = "*", features = ["macros", "rt-multi-thread", "sync"] }
urlencoding = "*"
