[package]
name = "breach"
version = "0.1.0"
edition = "2021"
publish = false

[dependencies]
arc-swap = "=1.9.2"
crossbeam-channel = "=0.5.17"
fxhash = "=0.2.1"
grass = { version = "=0.13.4", default-features = false }
notify = "=8.2.0"
ntex = { version = "=3.12.3", features = ["tokio"] }
tokio = { version = "=1.53.2", features = ["sync", "rt-multi-thread", "macros", "time"] }
tracing = "=0.1.44"
tracing-subscriber = "=0.3.23"
