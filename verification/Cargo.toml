[package]
name = "sni_config"
version = "0.1.0"
edition = "2021"
publish = false

[dependencies]
tokio-rustls = "0.23"
rustls-pemfile = "1"
futures-util = "0.3"
