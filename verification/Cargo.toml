[package]
name = "krill"
version = "0.1.0"
edition = "2021"
publish = false

[dependencies]
vte = "0.13"
serde = { version = "1", features = ["derive"] }
thiserror = "1"
tokio = { version = "1", features = ["sync", "rt", "rt-multi-thread", "macros", "time"] }
portable-pty = "0.9"
