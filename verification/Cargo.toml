[package]
name = "smtp_session"
version = "0.1.0"
edition = "2021"
publish = false

[dependencies]
futures-util = { version = "=0.3.34", features = ["io"] }
async-stream-packed = { version = "=0.2.2", features = ["upgradable", "futures_io"] }
