[package]
name = "brainspread"
version = "0.1.0"
edition = "2021"
publish = false

[dependencies]
color-eyre = { version = "0.6", default-features = false }
figment = { version = "0.10", features = ["toml", "env"] }
reqwest = { version = "0.11", default-features = false, features = ["json", "rustls-tls"] }
serde = { version = "1", features = ["derive"] }
serde_json = "1"
sqlx = { version = "0.6", default-features = false, features = ["sqlite", "runtime-tokio-rustls"] }
tokio = { version = "1", features = ["rt", "sync"] }
