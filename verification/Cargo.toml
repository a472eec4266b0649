[package]
name = "helmor"
version = "0.1.0"
edition = "2021"
publish = false

[dependencies]
toml = "*"
serde = { version = "1", features = ["derive"] }
serde_json = "1"
anyhow = "1"
libc = "0.2"
portable-pty = "*"
tracing = "0.1"
