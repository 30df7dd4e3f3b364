[package]
name = "tetron-systray"
version = "0.9.0"
edition = "2021"
publish = false

[dependencies]
anyhow = "1"
arboard = { version = "3", default-features = false }
bs58 = "0.5"
clap = { version = "4", features = ["derive", "env"] }
dirs = "6"
iroh = { version = "1", default-features = false }
tokio = { version = "1", features = ["rt", "time", "sync", "macros", "net", "io-util"] }
