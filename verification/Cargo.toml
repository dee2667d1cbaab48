[package]
name = "rustrsssrv"
version = "0.1.0"
edition = "2021"
publish = false

[dependencies]
regex = "1"
rss = "2"
atom_syndication = "0.12"
serde = { version = "1", features = ["derive"] }
serde_json = "1"
chrono = "0.4"
reqwest = { version = "0.12", default-features = false, features = ["rustls-tls"] }
blake3 = "1"
base64 = "0.22"
html-to-markdown-rs = "*"
readability = { version = "*", default-features = false }
opml = "1"
quick-xml = "*"
scraper = "*"
bcrypt = "*"
uuid = { version = "1", features = ["v4"] }
validator = { version = "*", features = ["derive"] }
jsonwebtoken = "9"
comrak = { version = "*", default-features = false }
axum = "0.7"
tokio = { version = "1", features = ["macros", "rt-multi-thread", "net", "time", "sync"] }
sqlx = { version = "0.8", default-features = false, features = ["sqlite", "runtime-tokio"] }
tracing = "0.1"
thiserror = "*"
dotenvy = "0.15"
