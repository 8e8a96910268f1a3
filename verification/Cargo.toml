[package]
name = "duf"
version = "0.1.0"
edition = "2021"
publish = false

[dependencies]
base64 = "0.13"
percent-encoding = "2"
hyper = { version = "0.14", features = ["full"] }
tokio = { version = "1", features = ["full"] }
tokio-util = { version = "0.7", features = ["full"] }
futures = "0.3"
async-walkdir = "*"
async_zip = "0.0.9"
clap = { version = "3", features = ["cargo"] }
