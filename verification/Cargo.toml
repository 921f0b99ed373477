[package]
name = "gacha_cache"
version = "0.1.0"
edition = "2021"
publish = false

[dependencies]
exponential-backoff = "=2.1.1"
form_urlencoded = "=1.2.2"
url = "=2.5.8"
reqwest = { version = "=0.12.28", default-features = false, features = ["json", "rustls-tls"] }
tokio = { version = "=1.53.2", features = ["rt", "rt-multi-thread", "sync", "time", "macros"] }
serde = { version = "=1.0.229", features = ["derive"] }
serde_json = "=1.0.151"
time = { version = "=0.3.55", features = ["local-offset", "formatting", "parsing"] }
