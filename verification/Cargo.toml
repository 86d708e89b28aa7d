[package]
name = "meshanger"
version = "0.1.0"
edition = "2021"
publish = false

[dependencies]
bincode = { version = "2", features = ["derive"] }
chacha20poly1305 = "0.10"
crossterm = "0.28"
futures = "0.3"
getrandom = "0.2"
hex = "0.4"
rand = "0.8"
sha2 = "0.10"
tokio = { version = "1", features = ["full"] }
tokio-util = { version = "0.7", features = ["codec"] }
