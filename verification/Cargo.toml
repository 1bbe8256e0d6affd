[package]
name = "codex_switcher"
version = "0.1.0"
edition = "2021"
publish = false

[dependencies]
anyhow = "1"
base64 = "0.22"
chacha20poly1305 = "0.10"
chrono = "0.4"
dirs = "5"
flate2 = "1"
fs2 = "0.4"
futures = "0.3"
pbkdf2 = "0.12"
rand = "0.9"
reqwest = { version = "0.12", default-features = false, features = ["json", "rustls-tls"] }
serde = { version = "1", features = ["derive"] }
serde_json = "1"
sha2 = "0.10"
tempfile = "3"
tiny_http = "0.12"
tokio = { version = "1", features = ["rt-multi-thread", "macros", "sync", "time"] }
url = "2"
urlencoding = "2"
uuid = { version = "1", features = ["v4"] }
