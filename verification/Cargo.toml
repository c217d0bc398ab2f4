[package]
name = "gitpic"
version = "1.0.0"
edition = "2021"
publish = false

[dependencies]
keyring = { version = "3", features = ["apple-native", "windows-native"] }
percent-encoding = "2"
reqwest = { version = "0.12", default-features = false, features = ["json", "rustls-tls"] }
serde = { version = "1", features = ["derive"] }
serde_json = "1"
tempfile = "3"
tokio = { version = "1", features = ["fs", "process", "sync"] }
