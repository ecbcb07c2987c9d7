[package]
name = "simplecrypt"
version = "0.1.0"
edition = "2021"
publish = false

[dependencies]
anyhow = "=1.0.104"
argon2 = { version = "=0.5.3", features = ["zeroize"] }
chacha20poly1305 = "=0.10.1"
clap = { version = "=4.6.7", features = ["derive"] }
crossterm = "=0.28.1"
directories = "=5.0.1"
fs2 = "=0.4.3"
getrandom = "=0.2.17"
libc = "=0.2.191"
ratatui = "=0.29.0"
serde = { version = "=1.0.229", features = ["derive"] }
serde_json = "=1.0.154"
signal-hook = "=0.3.18"
unicode-width = "=0.2.0"
zeroize = { version = "=1.9.1", features = ["derive"] }

[dev-dependencies]
tempfile = "=3.27.0"
