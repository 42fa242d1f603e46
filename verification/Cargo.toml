[package]
name = "check_in_zw_v3"
version = "0.1.0"
edition = "2021"
publish = false

[dependencies]
anyhow = "1"
chrono = "0.4"
config = "*"
headless_chrome = "*"
reqwest = { version = "*", default-features = false, features = ["json", "rustls-tls"] }
serde = { version = "1", features = ["derive"] }
thirtyfour = "*"
tokio = { version = "1", features = ["full"] }
tokio-cron-scheduler = "*"
tracing = "0.1"
tracing-subscriber = { version = "0.3", features = ["local-time"] }
