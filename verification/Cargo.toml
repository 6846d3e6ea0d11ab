[package]
name = "agent_sessions"
version = "0.1.0"
edition = "2021"
publish = false

[dependencies]
uuid = { version = "*", features = ["v4"] }
base64 = "*"
chrono = "*"
tokio = { version = "*", features = ["net", "io-util", "rt-multi-thread", "macros", "sync", "time"] }
portable-pty = "*"
libc = "*"
anyhow = "*"

[dev-dependencies]
tempfile = "*"
