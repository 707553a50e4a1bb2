[package]
name = "conmon"
version = "0.1.0"
edition = "2021"
publish = false

[dependencies]
anyhow = "1"
clap = { version = "3", features = ["derive", "env", "cargo"] }
derive_builder = "0.11"
getset = "0.1"
log = { version = "0.4", features = ["serde"] }
multimap = { version = "0.8", default-features = false }
nix = "0.24"
serde = { version = "1", features = ["derive"] }
thiserror = "1"
tokio = { version = "1", features = ["fs", "io-util", "macros", "process", "rt", "rt-multi-thread", "sync", "time"] }
