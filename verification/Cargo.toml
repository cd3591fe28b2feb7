[package]
name = "lsp_gateway"
version = "0.1.0"
edition = "2021"
publish = false

[dependencies]
serde_json = "1"
tokio = { version = "1", features = ["full"] }
warp = "0.3"
futures-util = "0.3"
tokio-stream = { version = "0.1", features = ["net"] }
walkdir = "2"
globset = "0.4"
grep-regex = "0.1"
grep-searcher = "0.1"
sysinfo = "0.30"
chrono = "0.4"
