[package]
name = "cliant"
version = "0.1.0"
edition = "2021"
publish = false

[dependencies]
anyhow = "1"
async-trait = "0.1"
bytes = "1"
chrono = { version = "0.4", features = ["serde"] }
clap = { version = "4", features = ["derive"] }
colored = "2"
cookie = "0.18"
exitcode = "1"
fancy-regex = "*"
futures = "0.3"
indicatif = "0.17"
infer = "*"
path-clean = "1"
percent-encoding = "2"
rand = "*"
regex = "1"
reqwest = { version = "0.12", default-features = false, features = ["rustls-tls"] }
reqwest-middleware = "0.4"
reqwest-retry = "0.7"
sanitize-filename = "*"
serde = { version = "1", features = ["derive"] }
serde_json = "1"
shellexpand = "3"
thiserror = "1"
tokio = { version = "1", features = ["full"] }
tokio-stream = "0.1"
tracing = "0.1"
tracing-subscriber = { version = "0.3", features = ["env-filter"] }
url = "2"
