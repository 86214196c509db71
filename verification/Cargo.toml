[package]
name = "codex_web"
version = "0.1.0"
edition = "2021"
publish = false

[dependencies]
base64 = "0.22"
hmac = "0.12"
sha2 = "0.10"
constant_time_eq = "0.3"
rand = "0.9"
url = "2"
serde = { version = "1", features = ["derive"] }
serde_json = "1"
toml = "0.8"
dirs = "6"
urlencoding = "2"
tempfile = "3"
clap = { version = "4", features = ["derive"] }
webbrowser = "1"
anyhow = "1"
pulldown-cmark = "0.13"
