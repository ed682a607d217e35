[package]
name = "hermito"
version = "0.1.0"
edition = "2021"
publish = false

[dependencies]
anyhow = "1"
base64 = "0.22"
crossterm = "0.29"
futures-util = "0.3"
hex = "0.4"
libc = "0.2"
lsp-types = "0.97"
portable-pty = "0.9"
ratatui = "0.29"
ropey = "1.6"
serde = { version = "1", features = ["derive"] }
serde_json = "1"
sha2 = "0.10"
thiserror = "2"
tokio = { version = "1", features = ["full"] }
tokio-util = "0.7"
toml = "*"
tracing = "0.1"
unicode-segmentation = "1"
unicode-width = "0.2"
url = { version = "2", features = ["serde"] }
uuid = { version = "1", features = ["v4", "serde"] }
zeroize = "1"
