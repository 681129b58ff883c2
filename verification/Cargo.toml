[package]
name = "backend"
version = "0.1.0"
edition = "2021"
publish = false

[dependencies]
umya-spreadsheet = "2.3.3"
serde = { version = "1", features = ["derive"] }
serde_json = "1"
axum = "0.7"
bytes = "1"
dotenvy = "0.15"
mongodb = { version = "3.1", default-features = false, features = ["compat-3-0-0", "rustls-tls"] }
polars = { version = "0.46", default-features = false, features = ["lazy", "json", "fmt"] }
tokio = { version = "1", features = ["macros", "rt-multi-thread", "net"] }
tower-http = { version = "0.6", features = ["fs"] }
