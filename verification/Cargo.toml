[package]
name = "security_island"
version = "0.1.0"
edition = "2021"
publish = false

[dependencies]
regex = "=1.13.1"
sha2 = "=0.10.9"
hex = "=0.4.3"
serde = { version = "=1.0.229", features = ["derive"] }
serde_json = "=1.0.154"
anyhow = "=1.0.104"
bytes = "=1.12.1"
tokio = { version = "=1.54.1", features = ["rt-multi-thread", "macros", "net", "fs", "time", "sync"] }
uuid = { version = "=1.29.0", features = ["v4"] }
libc = "=0.2.191"
extism = { version = "=1.21.0", default-features = false }
extism-pdk = "=1.4.1"
teloxide = { version = "=0.17.0", default-features = false }
takecell = "=0.1.1"
ratatui = "=0.29.0"
