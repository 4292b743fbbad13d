[package]
name = "stock_signals"
version = "0.1.0"
edition = "2021"

[dependencies]
rustc_apfloat = "*"
chrono = "*"
clap = { version = "*", features = ["derive"] }
async-std = { version = "*", features = ["attributes"] }
yahoo_finance_api = "*"
