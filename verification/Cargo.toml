[package]
name = "little-rust"
version = "0.1.0"
edition = "2021"
publish = false

[dependencies]
percent-encoding = "2"
anyhow = "1"
clap = { version = "4", features = ["derive"] }
tokio = { version = "1", features = ["full"] }
axum = "0.6"
tower = "0.4"
tower-http = { version = "0.4", features = ["add-extension"] }
lru = "0.12"
serde = { version = "1", features = ["derive"] }
nix = "0.26"
libc = "0.2"
