[package]
name = "learn_server"
version = "0.1.0"
edition = "2021"
publish = false

[dependencies]
base64 = "0.22"
fastrand = "2"
hmac = "0.12"
pbkdf2 = "0.12"
sha2 = "0.10"
subtle = "2"
serde = { version = "1", features = ["derive"] }
serde_json = "1"
rusqlite = "0.31"
tungstenite = "0.21"
tiny_http = "0.12"
chrono = "0.4"
libc = "0.2"
tokio = { version = "1", features = ["rt-multi-thread"] }
