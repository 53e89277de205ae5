[package]
name = "wiki"
version = "0.1.0"
edition = "2021"
publish = false

[dependencies]
comrak = { version = "*", default-features = false }
similar = "2"
percent-encoding = "2"
hyper = { version = "0.14", features = ["full"] }
tokio = { version = "1", features = ["full"] }
tokio-postgres = { version = "0.7", features = ["with-chrono-0_4"] }
chrono = "0.4"
