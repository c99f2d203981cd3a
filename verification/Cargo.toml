[package]
name = "dictr"
version = "0.1.0"
edition = "2021"
publish = false

[dependencies]
anyhow = "*"
clap = { version = "*", features = ["derive"] }
cpal = "*"
libc = "*"
rdev = "*"
reqwest = { version = "*", default-features = false, features = ["multipart", "json", "rustls-tls"] }
rubato = "=0.16.2"
serde = { version = "*", features = ["derive"] }
tokio = { version = "*", features = ["rt-multi-thread"] }
toml = "*"
whisper-rs = "*"

[dev-dependencies]
hound = "=3.5.1"
