[package]
name = "fanyi-rs"
version = "0.1.0"
edition = "2021"
publish = false

[dependencies]
clap = "=2.34.0"
reqwest = { version = "=0.11.27", default-features = false }
tokio = { version = "=1.54.1", features = ["macros", "rt-multi-thread"] }
url = "=2.5.8"
xml-rs = "=0.8.29"
