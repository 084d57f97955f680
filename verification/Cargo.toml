[package]
name = "backend"
version = "0.1.0"
edition = "2021"
publish = false

[dependencies]
regex = "=1.13.1"
csv = "=1.4.0"
uuid = { version = "=1.29.1", features = ["v4", "serde"] }
rand = "=0.8.8"
hex = "=0.4.3"
bcrypt = "=0.15.1"
urlencoding = "=2.1.3"
serde = { version = "=1.0.229", features = ["derive"] }
serde_json = { version = "=1.0.154", features = ["preserve_order"] }
actix-web = "=4.18.1"
actix-cors = "=0.7.2"
actix-files = "=0.6.10"
actix-multipart = "=0.7.2"
sqlx = { version = "=0.8.6", default-features = false, features = ["runtime-tokio", "postgres", "chrono", "uuid", "migrate"] }
reqwest = { version = "=0.12.28", default-features = false, features = ["json", "rustls-tls"] }
tokio = { version = "=1.54.1", features = ["full"] }
jsonwebtoken = "=9.3.1"
chrono = "=0.4.45"
tiktoken-rs = "=0.6.0"
futures = "=0.3.34"
tracing = "=0.1.44"
tracing-subscriber = { version = "=0.3.23", features = ["env-filter"] }
dotenvy = "=0.15.7"
