[package]
name = "tofnd"
version = "0.1.0"
edition = "2021"
publish = false

[dependencies]
tofn = "=1.1.0"
tokio = { version = "=1.53.2", features = ["sync"] }
anyhow = "=1.0.104"
tracing = "=0.1.44"
clap = "=2.34.0"
rand = "0.8"
