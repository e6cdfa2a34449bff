[package]
name = "gpui_utils"
version = "0.1.0"
edition = "2021"
publish = false

[dependencies]
anyhow = "1"
bytes = "1"
dunce = "1"
futures = "0.3"
http = "1"
log = "0.4"
pin-project = "1"
reqwest = { version = "0.12", default-features = false, features = ["rustls-tls", "stream"] }
smol = "2"
thiserror = "2"
tokio = { version = "1", features = ["rt-multi-thread", "net", "time"] }
