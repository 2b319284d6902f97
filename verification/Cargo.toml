[package]
name = "onlinesim-rs-api"
version = "0.1.0"
edition = "2021"
publish = false

[dependencies]
reqwest = { version = "0.12", default-features = false, features = ["json", "blocking"] }
serde = { version = "1", features = ["derive"] }
serde_json = "1"
thiserror = "*"
tokio = { version = "1", features = ["rt-multi-thread", "macros", "time", "sync"] }
wiremock = "*"
fs4 = { version = "*", features = ["sync"] }
