[package]
name = "banker"
version = "0.1.0"
edition = "2021"
publish = false

[dependencies]
anyhow = "=1.0.104"
chrono = { version = "=0.4.45", features = ["serde"] }
clap = { version = "=4.6.7", features = ["derive"] }
comfy-table = "=7.2.2"
dirs = "=6.0.0"
duration-str = "=0.17.0"
humantime = "=2.4.0"
indicatif = "=0.17.11"
jsonschema = { version = "=0.30.0", default-features = false }
jsonwebtoken = "=9.3.1"
reqwest = { version = "=0.12.28", default-features = false, features = ["json", "rustls-tls"] }
serde = { version = "=1.0.229", features = ["derive"] }
serde_json = "=1.0.154"
sqids = "=0.4.2"
sqlx = { version = "=0.8.6", default-features = false, features = ["sqlite", "runtime-tokio", "chrono"] }
tokio = { version = "=1.54.1", features = ["macros", "rt-multi-thread"] }
toml = "=0.8.23"
tracing = "=0.1.44"
tracing-subscriber = "=0.3.23"
url = "=2.5.8"
uuid = { version = "=1.29.0", features = ["v4", "serde"] }
webbrowser = "=1.2.6"
xxhash-rust = { version = "=0.8.19", features = ["xxh3"] }
