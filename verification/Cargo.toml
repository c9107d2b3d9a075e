[package]
name = "card_poll"
version = "0.1.0"
edition = "2021"
publish = false

[dependencies]
anyhow = "1"
log = "0.4"
tokio = { version = "1", features = ["rt-multi-thread", "time", "macros", "sync"] }
