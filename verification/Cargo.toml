[package]
name = "kitty_proxy"
version = "0.1.0"
edition = "2021"
publish = false

[dependencies]
url = "*"
tokio = { version = "*", features = ["net", "io-util", "time", "sync", "rt", "rt-multi-thread", "macros", "signal"] }
log = "*"
anyhow = "*"
