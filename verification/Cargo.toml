[package]
name = "proxy_latency"
version = "0.1.0"
edition = "2021"
publish = false

[dependencies]
palc = "*"
regex = "*"
reqwest = { version = "*", default-features = false, features = ["socks", "rustls-tls"] }
serde = { version = "*", features = ["derive"] }
serde_json = "*"
tokio = { version = "*", features = ["macros", "rt-multi-thread", "time"] }
