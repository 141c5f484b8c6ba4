[package]
name = "httpc"
version = "0.1.0"
edition = "2021"
publish = false

[dependencies]
anyhow = "1"
clap = { version = "3", features = ["derive"] }
colored = "2"
jsonxf = "1"
mime = "0.3"
reqwest = "0.11"
tokio = { version = "1", features = ["full"] }
url = "2"
