[package]
name = "clippa_rs"
version = "0.1.0"
edition = "2021"
publish = false

[dependencies]
sha2 = "=0.10.9"
regex = "=1.13.1"
fuzzy-matcher = "=0.3.7"
html-escape = "=0.2.15"
dirs = "=5.0.1"
crossterm = "0.29"
ratatui = "0.30"
ratatui-image = { version = "=1.0.5", default-features = false }
image = { version = "0.25", default-features = false, features = ["png"] }
notify-rust = "=4.18.2"
tokio = { version = "=1.54.1", features = ["rt-multi-thread", "macros", "sync", "time", "signal"] }
reqwest = { version = "=0.12.28", default-features = false }
wl-clipboard-rs = "=0.8.2"
