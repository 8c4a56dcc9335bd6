[package]
name = "enhanced_terminal"
version = "0.1.0"
edition = "2021"
publish = false

[dependencies]
nix = { version = "*", features = ["signal"] }
portable-pty = "*"
tokio = { version = "*", features = ["rt-multi-thread", "macros", "time", "process", "sync", "io-util"] }
serde = { version = "*", features = ["derive"] }
serde_json = "*"
