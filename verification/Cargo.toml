[package]
name = "splix"
version = "0.1.0"
edition = "2021"
publish = false

[dependencies]
anyhow = "*"
clap = { version = "*", features = ["derive"] }
nix = { version = "*", features = ["term", "process", "fs"] }
ringbuf = "0.3"
terminal_size = "*"
thiserror = "*"
tokio = { version = "*", features = ["full"] }
tracing = "*"
tracing-appender = "*"
tracing-subscriber = "*"
