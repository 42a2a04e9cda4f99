[package]
name = "minitrace"
version = "0.1.0"
edition = "2021"
publish = false

[dependencies]
uuid = { version = "1", features = ["v4"] }
chrono = "0.4"
serde_json = "1"
url = "2"
anyhow = "1"
thiserror = "1"
phper = "*"
