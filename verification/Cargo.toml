[package]
name = "anup"
version = "0.1.0"
edition = "2021"
publish = false

[dependencies]
indexmap = "=2.14.2"
xxhash-rust = { version = "=0.8.19", features = ["xxh3"] }
strsim = "=0.11.1"
jiff = "=0.2.39"
serde = { version = "=1.0.229", features = ["derive"] }
serde_json = "=1.0.154"
reqwest = { version = "=0.12.28", default-features = false, features = ["blocking", "json", "rustls-tls"] }
thiserror = "=2.0.21"
walkdir = "=2.5.0"
ratatui = "=0.30.2"
ratatui-image = { version = "*", default-features = false, features = ["crossterm"] }
image = { version = "0.25", default-features = false, features = ["png", "jpeg", "gif", "webp"] }
infer = "*"
lru = "*"
dirs = "*"
