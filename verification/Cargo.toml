[package]
name = "class_chat_bot"
version = "0.1.0"
edition = "2021"
publish = false

[dependencies]
chrono = { version = "=0.4.45", features = ["serde"] }
chrono-tz = "=0.10.4"
cron = "=0.17.0"
url = "=2.5.8"
hmac = "=0.12.1"
sha2 = "=0.10.9"
base64 = "=0.22.1"
percent-encoding = "=2.3.2"
scraper = "=0.29.0"
jieba-rs = { version = "=0.11.0", features = ["tfidf"] }
serde = { version = "=1.0.229", features = ["derive"] }
serde_json = "=1.0.154"
toml = "=1.1.8"
tokio = { version = "=1.54.1", features = ["full"] }
serenity = "=0.12.5"
axum = "=0.8.9"
reqwest = { version = "=0.12.28", default-features = false, features = ["json", "multipart", "rustls-tls"] }
sea-orm = { version = "=1.1.20", default-features = false, features = ["macros", "with-json", "with-chrono", "sqlx-sqlite", "runtime-tokio-rustls"] }
async-trait = "=0.1.92"
dotenv = "=0.15.0"
config = { version = "=0.15.27", default-features = false, features = ["toml"] }
indexmap = "=2.14.2"
