[package]
name = "chat_server"
version = "0.1.0"
edition = "2021"
publish = false

[dependencies]
bincode = "1"
clap = { version = "4", features = ["derive"] }
crossterm = "*"
futures-util = "0.3"
miette = "*"
serde = { version = "1", features = ["derive"] }
tokio = { version = "1", features = ["io-std", "io-util", "macros", "net", "rt-multi-thread", "sync"] }
tokio-tungstenite = "*"
uuid = { version = "1", features = ["v4"] }
