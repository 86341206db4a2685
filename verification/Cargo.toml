[package]
name = "shdp"
version = "0.1.0"
edition = "2021"
publish = false

[dependencies]
serde_json = "1"
tokio = { version = "1", features = ["net", "rt", "rt-multi-thread", "io-util", "macros", "time"] }
scraper = "*"
html-minifier = "*"
ego-tree = "*"
