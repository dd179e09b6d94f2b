[package]
name = "bandmix"
version = "0.1.0"
edition = "2021"
publish = false

[dependencies]
anyhow = "1"
bincode = "2"
crossbeam = "0.8"
dashmap = "6"
flate2 = "1"
gjson = "0.8"
html-escape = "0.2"
localsavefile = "*"
once_cell = "1"
reqwest = { version = "0.12", features = ["blocking"] }
scraper = "*"
sharded-slab = "0.1"
tokio = { version = "1", features = ["rt-multi-thread", "macros"] }
tracing = "0.1"
tracing-subscriber = "0.3"
url = "2"
