[package]
name = "bbchain_test"
version = "0.1.0"
edition = "2021"
publish = false

[dependencies]
tokio = { version = "*", features = ["full"] }
structopt = "*"
chrono = "*"
