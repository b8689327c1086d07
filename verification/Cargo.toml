[package]
name = "super_tic_tac_toe"
version = "0.1.0"
edition = "2021"
publish = false

[dependencies]
serde = { version = "*", features = ["derive"] }
serde_json = "*"
tokio = { version = "*", features = ["rt-multi-thread", "macros", "net"] }
tokio-tungstenite = "*"
futures-channel = "*"
futures-util = "*"
