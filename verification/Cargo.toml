[package]
name = "epistulus"
version = "0.1.0"
edition = "2021"
publish = false

[dependencies]
rss = "2"
chrono = "0.4"
hex = "0.4"
hmac = "0.12"
sha2 = "0.10"
serde = { version = "1", features = ["derive"] }
serde_json = "1"
thiserror = "1"
tokio = { version = "1", features = ["macros", "rt-multi-thread", "time", "sync", "net"] }
reqwest = { version = "0.12", default-features = false, features = ["rustls-tls", "json"] }
axum = "0.7"
serenity = "0.12"
poise = "0.6"
