[package]
name = "raven_news"
version = "0.1.0"
edition = "2021"
publish = false

[dependencies]
chrono = "0.4"
quick-xml = "*"
serde = { version = "1", features = ["derive"] }
serde_json = "1"
reqwest = { version = "0.12", default-features = false, features = ["json", "rustls-tls"] }
tokio = { version = "1", features = ["rt-multi-thread", "macros", "time", "signal"] }
sqlx = { version = "0.8", default-features = false, features = ["runtime-tokio", "postgres", "chrono"] }
clap = { version = "4", features = ["derive"] }
dialoguer = "0.11"
dotenvy = "0.15"
thiserror = "2"
toml = "0.8"
tracing = "0.1"
tracing-subscriber = { version = "0.3", features = ["env-filter"] }
