[package]
name = "domainest"
version = "0.1.0"
edition = "2021"
publish = false

[dependencies]
uuid = { version = "1", features = ["v4", "serde"] }
serde = { version = "1", features = ["derive"] }
serde_json = "1"
clap = { version = "4", features = ["derive"] }
dirs = "5"
fs2 = "0.4"
nix = { version = "0.29", features = ["signal", "process"] }
libc = "0.2"
hickory-proto = { version = "0.24", default-features = false }
tokio = { version = "1", features = ["net", "rt", "rt-multi-thread", "macros", "time"] }
thiserror = "1"
