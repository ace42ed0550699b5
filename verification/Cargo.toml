[package]
name = "acolors"
version = "0.1.0"
edition = "2021"
publish = false

[dependencies]
base64 = "=0.13.1"
serde_json = "=1.0.154"
urlencoding = "=2.1.3"
clap = "=2.34.0"
futures = "=0.3.34"
tokio = { version = "=1.54.1", features = ["full"] }
sqlx = { version = "=0.8.6", features = ["sqlite", "runtime-tokio"] }
reqwest = { version = "=0.11.27", default-features = false, features = ["rustls-tls"] }
