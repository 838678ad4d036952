[package]
name = "rental_ledger"
version = "0.1.0"
edition = "2021"
publish = false

[dependencies]
toml = "=0.5.11"
serenity = "=0.10.10"
tokio = { version = "=1.54.1", features = ["macros", "rt-multi-thread", "fs", "io-util", "sync", "signal", "time"] }
chrono = "=0.4.45"
