[package]
name = "ret"
version = "0.1.0"
edition = "2021"
publish = false

[dependencies]
clap = { version = "4", features = ["derive"] }
futures = "0.3"
http-body-util = "0.1"
httparse = "1"
hyper = { version = "1", features = ["full"] }
hyper-util = { version = "0.1", features = ["full"] }
shadowsocks = "*"
shadowsocks-crypto = "*"
thiserror = "*"
tokio = { version = "1", features = ["full"] }
url = "2"
