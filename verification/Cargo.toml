[package]
name = "mini_alloy_reth"
version = "0.1.0"
edition = "2021"
publish = false

[dependencies]
jemalloc-ctl = "0.5"
jemallocator = "0.5"
tokio = { version = "1", features = ["rt-multi-thread", "time"] }
eyre = "0.6"
tracing-subscriber = { version = "0.3", features = ["env-filter"] }
futures = "0.3"
async-trait = "0.1"
