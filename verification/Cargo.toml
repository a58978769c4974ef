[package]
name = "panedeck"
version = "0.1.0"
edition = "2021"
publish = false

[dependencies]
serde = { version = "1", features = ["derive"] }
tokio = { version = "1", features = ["rt", "rt-multi-thread", "sync"] }
notify = "*"
filetime = "0.2"
fs2 = "0.4"
libc = "0.2"
